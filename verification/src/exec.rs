//! Command templates: splitting one into a program and its arguments, and
//! filling the one variable argument with the files or URLs of an invocation.

use crate::errors::{Error, ErrorView};
use crate::text::{chars_of, push_char};
use vstd::prelude::*;

verus! {

/// One argument of a command template.
#[derive(Debug, Clone, Eq, PartialEq)]
pub enum Arg {
    /// The place of the files or URLs that the invocation brings.
    FieldCode,
    /// An argument that is passed on as it stands.
    StaticArg(String),
}

/// The mathematical value of an `Arg`.
pub ghost enum ArgView {
    FieldCode,
    StaticArg(Seq<char>),
}

impl View for Arg {
    type V = ArgView;

    open spec fn view(&self) -> ArgView {
        match self {
            Arg::FieldCode => ArgView::FieldCode,
            Arg::StaticArg(s) => ArgView::StaticArg(s@),
        }
    }
}

impl DeepView for Arg {
    type V = ArgView;

    open spec fn deep_view(&self) -> ArgView {
        self@
    }
}

/// A command template, split: the program and its arguments in order.
#[derive(Debug, Clone, Eq, PartialEq)]
pub struct Exec {
    pub program: String,
    pub args: Vec<Arg>,
}

/// The mathematical value of an `Exec`.
pub ghost struct ExecView {
    pub program: Seq<char>,
    pub args: Seq<ArgView>,
}

impl View for Exec {
    type V = ExecView;

    open spec fn view(&self) -> ExecView {
        ExecView { program: self.program@, args: self.args.deep_view() }
    }
}

/// A command that is ready to run: the program and its arguments.
#[derive(Debug, Clone, Eq, PartialEq)]
pub struct CmdLine {
    pub cmd: String,
    pub args: Vec<String>,
}

/// The mathematical value of a `CmdLine`.
pub ghost struct CmdLineView {
    pub cmd: Seq<char>,
    pub args: Seq<Seq<char>>,
}

impl View for CmdLine {
    type V = CmdLineView;

    open spec fn view(&self) -> CmdLineView {
        CmdLineView { cmd: self.cmd@, args: self.args.deep_view() }
    }
}

impl DeepView for CmdLine {
    type V = CmdLineView;

    open spec fn deep_view(&self) -> CmdLineView {
        self@
    }
}

/// What a template's variable argument stands for.
#[derive(Debug, Copy, Clone, Eq, PartialEq)]
pub enum FieldCode {
    /// `%f`: one file, so one command per file.
    SingleFile,
    /// `%F`: all files at once.
    MultipleFiles,
    /// `%u`: one URL, so one command per URL.
    SingleUrl,
    /// `%U`: all URLs at once.
    MultipleUrls,
}

/// Where the tokenizer stands: the tokens that are complete, the token that
/// is being read, and whether a double quote is open.
pub ghost struct Scan {
    pub tokens: Seq<Seq<char>>,
    pub token: Seq<char>,
    pub quote: bool,
}

/// The character that a backslash before `c` stands for.
pub open spec fn unescape(c: char) -> char {
    if c == 'n' {
        '\n'
    } else if c == 't' {
        '\t'
    } else {
        c
    }
}

/// The state of the tokenizer after it has read `s` from position `i` on,
/// having started there in state `st`.
///
/// A backslash takes the next character with it, which is kept as
/// `unescape` says; a backslash at the very end is dropped. A space outside
/// quotes ends the token, empty or not; inside quotes it belongs to the token.
/// A double quote opens or closes a quotation and is itself dropped.
pub open spec fn scan(s: Seq<char>, i: int, st: Scan) -> Scan
    decreases s.len() - i,
{
    if i < 0 || i >= s.len() {
        st
    } else if s[i] == '\\' {
        if i + 1 < s.len() {
            scan(s, i + 2, Scan { token: st.token.push(unescape(s[i + 1])), ..st })
        } else {
            st
        }
    } else if s[i] == ' ' {
        if st.quote {
            scan(s, i + 1, Scan { token: st.token.push(' '), ..st })
        } else {
            scan(s, i + 1, Scan { tokens: st.tokens.push(st.token), token: Seq::empty(), ..st })
        }
    } else if s[i] == '"' {
        scan(s, i + 1, Scan { quote: !st.quote, ..st })
    } else {
        scan(s, i + 1, Scan { token: st.token.push(s[i]), ..st })
    }
}

/// The tokens of the command template `s`: those that a space ended, and the
/// last one if it holds a character.
pub open spec fn spec_split_command_line(s: Seq<char>) -> Seq<Seq<char>> {
    let end = scan(s, 0, Scan { tokens: Seq::empty(), token: Seq::empty(), quote: false });
    if end.token.len() > 0 {
        end.tokens.push(end.token)
    } else {
        end.tokens
    }
}

/// Whether `c` is one of the letters that follow `%` in a variable marker.
pub open spec fn is_marker_letter(c: char) -> bool {
    c == 'f' || c == 'F' || c == 'u' || c == 'U'
}

/// Whether the token is exactly one of `%f`, `%F`, `%u`, `%U`.
pub open spec fn is_field_code(t: Seq<char>) -> bool {
    t.len() == 2 && t[0] == '%' && is_marker_letter(t[1])
}

/// The argument that a token stands for.
pub open spec fn spec_arg(t: Seq<char>) -> ArgView {
    if is_field_code(t) {
        ArgView::FieldCode
    } else {
        ArgView::StaticArg(t)
    }
}

/// The template that `s` spells: its first token is the program, the others
/// are the arguments. There is none where `s` holds no token.
pub open spec fn spec_parse_exec(s: Seq<char>) -> Option<ExecView> {
    let tokens = spec_split_command_line(s);
    if tokens.len() == 0 {
        None
    } else {
        Some(
            ExecView {
                program: tokens[0],
                args: Seq::new((tokens.len() - 1) as nat, |i: int| spec_arg(tokens[i + 1])),
            },
        )
    }
}

/// The number of variable arguments among `args`.
pub open spec fn field_codes(args: Seq<ArgView>) -> nat
    decreases args.len(),
{
    if args.len() == 0 {
        0
    } else {
        field_codes(args.drop_last()) + if args.last() is FieldCode {
            1nat
        } else {
            0nat
        }
    }
}

/// The arguments of a command: those of the template in order, with the whole
/// of `user` in the place of each variable argument.
pub open spec fn substitute(args: Seq<ArgView>, user: Seq<Seq<char>>) -> Seq<Seq<char>>
    decreases args.len(),
{
    if args.len() == 0 {
        Seq::empty()
    } else {
        substitute(args.drop_last(), user) + match args.last() {
            ArgView::FieldCode => user,
            ArgView::StaticArg(a) => seq![a],
        }
    }
}

/// The command that `template` gives with `user` in the place of its variable
/// argument.
pub open spec fn spec_command_line(template: ExecView, user: Seq<Seq<char>>) -> CmdLineView {
    CmdLineView { cmd: template.program, args: substitute(template.args, user) }
}

/// Whether the code asks for one command per file or URL.
pub open spec fn is_single(code: FieldCode) -> bool {
    code == FieldCode::SingleFile || code == FieldCode::SingleUrl
}

/// The commands that `template` gives for the files or URLs `args`: one without
/// any where `args` is empty; else one for each of them where the code is a
/// single one, and one for all of them where it is a multiple one.
pub open spec fn spec_expand_exec(code: FieldCode, template: ExecView, args: Seq<Seq<char>>) -> Seq<
    CmdLineView,
> {
    if args.len() == 0 {
        seq![spec_command_line(template, Seq::empty())]
    } else if is_single(code) {
        Seq::new(args.len(), |i: int| spec_command_line(template, seq![args[i]]))
    } else {
        seq![spec_command_line(template, args)]
    }
}

/// The commands that `template` gives for `args` under an optional code: without
/// a code the template takes no files or URLs, and `args` is left out.
pub open spec fn spec_expand(
    code: Option<FieldCode>,
    template: ExecView,
    args: Seq<Seq<char>>,
) -> Seq<CmdLineView> {
    match code {
        Some(c) => spec_expand_exec(c, template, args),
        None => seq![spec_command_line(template, Seq::empty())],
    }
}

/// Whether `%` followed by `letter` occurs in `s`.
pub open spec fn has_marker(s: Seq<char>, letter: char) -> bool {
    exists|i: int| 0 <= i < s.len() - 1 && s[i] == '%' && #[trigger] s[i + 1] == letter
}

/// The code of the first of `%f`, `%F`, `%u`, `%U`, in this order of
/// preference, that occurs anywhere in `s`.
pub open spec fn spec_extract_field_code(s: Seq<char>) -> Option<FieldCode> {
    if has_marker(s, 'f') {
        Some(FieldCode::SingleFile)
    } else if has_marker(s, 'F') {
        Some(FieldCode::MultipleFiles)
    } else if has_marker(s, 'u') {
        Some(FieldCode::SingleUrl)
    } else if has_marker(s, 'U') {
        Some(FieldCode::MultipleUrls)
    } else {
        None
    }
}

/// A template without a variable argument gives the same arguments whatever
/// the invocation brings.
pub proof fn lemma_substitute_without_field_code(
    args: Seq<ArgView>,
    a: Seq<Seq<char>>,
    b: Seq<Seq<char>>,
)
    requires
        field_codes(args) == 0,
    ensures
        substitute(args, a) == substitute(args, b),
    decreases args.len(),
{
    if args.len() > 0 {
        lemma_substitute_without_field_code(args.drop_last(), a, b);
    }
}

/// How many commands an expansion gives: one for each file or URL where there
/// are some and the code is a single one, and exactly one otherwise. Every
/// one of them runs the template's program.
pub proof fn lemma_expand_count(code: FieldCode, template: ExecView, args: Seq<Seq<char>>)
    ensures
        args.len() > 0 && is_single(code) ==> spec_expand_exec(code, template, args).len()
            == args.len(),
        args.len() == 0 || !is_single(code) ==> spec_expand_exec(code, template, args).len() == 1,
        forall|i: int|
            0 <= i < spec_expand_exec(code, template, args).len() ==> (#[trigger] spec_expand_exec(
                code,
                template,
                args,
            )[i]).cmd == template.program,
{
}

/// Appends a string to a list of strings.
fn push_text(v: &mut Vec<String>, s: String)
    ensures
        final(v).deep_view() == old(v).deep_view().push(s@),
{
    v.push(s);
    assert(v.deep_view() =~= old(v).deep_view().push(s@));
}

/// Appends copies of the strings of `more` to `v`.
fn extend_texts(v: &mut Vec<String>, more: &Vec<String>)
    ensures
        final(v).deep_view() == old(v).deep_view() + more.deep_view(),
{
    let mut i: usize = 0;
    assert(more.deep_view().take(0) =~= Seq::<Seq<char>>::empty());
    assert(v.deep_view() + Seq::<Seq<char>>::empty() =~= v.deep_view());
    while i < more.len()
        invariant
            i <= more.len(),
            v.deep_view() == old(v).deep_view() + more.deep_view().take(i as int),
        decreases more.len() - i,
    {
        push_text(v, more[i].clone());
        assert(more.deep_view().take(i + 1) =~= more.deep_view().take(i as int).push(
            more[i as int]@,
        ));
        assert((old(v).deep_view() + more.deep_view().take(i as int)).push(more[i as int]@) =~= old(
            v,
        ).deep_view() + more.deep_view().take(i + 1));
        i += 1;
    }
    assert(more.deep_view().take(more.len() as int) =~= more.deep_view());
}

/// The tokens of a command template.
pub fn split_command_line(cmd_line: &str) -> (slices: Vec<String>)
    ensures
        slices.deep_view() == spec_split_command_line(cmd_line@),
{
    let chars = chars_of(cmd_line);
    let n = chars.len();
    let mut slices: Vec<String> = Vec::new();
    let mut token = String::new();
    let mut quote = false;
    let mut i: usize = 0;
    assert(slices.deep_view() =~= Seq::<Seq<char>>::empty());
    let ghost start = Scan { tokens: Seq::empty(), token: Seq::empty(), quote: false };
    while i < n
        invariant
            i <= n == chars.len(),
            chars@ == cmd_line@,
            scan(cmd_line@, 0, start) == scan(
                cmd_line@,
                i as int,
                Scan { tokens: slices.deep_view(), token: token@, quote },
            ),
        decreases n - i,
    {
        let c = chars[i];
        if c == '\\' {
            if i + 1 < n {
                let d = chars[i + 1];
                if d == 'n' {
                    push_char(&mut token, '\n');
                } else if d == 't' {
                    push_char(&mut token, '\t');
                } else {
                    push_char(&mut token, d);
                }
                i += 2;
            } else {
                i += 1;
            }
        } else if c == ' ' {
            if quote {
                push_char(&mut token, c);
            } else {
                push_text(&mut slices, token);
                token = String::new();
            }
            i += 1;
        } else if c == '"' {
            quote = !quote;
            i += 1;
        } else {
            push_char(&mut token, c);
            i += 1;
        }
    }
    if !token.as_str().is_empty() {
        push_text(&mut slices, token);
    }
    slices
}

impl Arg {
    /// The argument that the token `s` stands for: the variable argument where
    /// `s` is exactly one of `%f`, `%F`, `%u`, `%U`, else `s` itself.
    pub fn parse(s: &str) -> (r: Arg)
        ensures
            r@ == spec_arg(s@),
    {
        let chars = chars_of(s);
        if chars.len() == 2 && chars[0] == '%' && (chars[1] == 'f' || chars[1] == 'F' || chars[1]
            == 'u' || chars[1] == 'U') {
            Arg::FieldCode
        } else {
            Arg::StaticArg(s.to_owned())
        }
    }
}

impl Exec {
    /// Splits a command template into its program and arguments.
    ///
    /// Fails with `InvalidCommandLine`, which carries `s`, exactly when `s`
    /// holds no token.
    pub fn parse(s: &str) -> (r: Result<Exec, Error>)
        ensures
            match r {
                Ok(parsed) => spec_parse_exec(s@) == Some(parsed@),
                Err(e) => spec_parse_exec(s@) is None && e@ == ErrorView::InvalidCommandLine(s@),
            },
    {
        let tokens = split_command_line(s);
        if tokens.len() == 0 {
            return Err(Error::InvalidCommandLine(s.to_owned()));
        }
        let mut args: Vec<Arg> = Vec::new();
        let mut i: usize = 1;
        while i < tokens.len()
            invariant
                1 <= i <= tokens.len(),
                args.len() == i - 1,
                forall|j: int|
                    0 <= j < i - 1 ==> (#[trigger] args@[j])@ == spec_arg(tokens@[j + 1]@),
            decreases tokens.len() - i,
        {
            args.push(Arg::parse(tokens[i].as_str()));
            i += 1;
        }
        let parsed = Exec { program: tokens[0].clone(), args };
        proof {
            let spec_tokens = spec_split_command_line(s@);
            assert(spec_tokens == tokens.deep_view());
            assert forall|j: int| 0 <= j < tokens.len() implies tokens.deep_view()[j]
                == tokens@[j]@ by {}
            assert(parsed@.args =~= spec_parse_exec(s@)->0.args);
        }
        Ok(parsed)
    }

    /// The number of variable arguments of the template.
    pub fn field_code_count(&self) -> (n: usize)
        ensures
            n == field_codes(self@.args),
    {
        let mut n: usize = 0;
        let mut i: usize = 0;
        assert(self.args.deep_view().take(0) =~= Seq::<ArgView>::empty());
        while i < self.args.len()
            invariant
                i <= self.args.len(),
                n <= i,
                n == field_codes(self.args.deep_view().take(i as int)),
            decreases self.args.len() - i,
        {
            assert(self.args.deep_view().take(i + 1).drop_last() =~= self.args.deep_view().take(
                i as int,
            ));
            assert(self.args.deep_view().take(i + 1).last() == self.args@[i as int]@);
            match &self.args[i] {
                Arg::FieldCode => {
                    n += 1;
                },
                Arg::StaticArg(_) => {},
            }
            i += 1;
        }
        assert(self.args.deep_view().take(self.args.len() as int) =~= self.args.deep_view());
        n
    }

    /// The command that the template gives with `user_args` in the place of
    /// its variable argument.
    ///
    /// A template with more than one variable argument is malformed, and no
    /// command is made from it.
    pub fn get_command_line(&self, user_args: Vec<String>) -> (r: CmdLine)
        requires
            field_codes(self@.args) <= 1,
        ensures
            r@ == spec_command_line(self@, user_args.deep_view()),
    {
        let mut args: Vec<String> = Vec::new();
        let mut i: usize = 0;
        assert(args.deep_view() =~= Seq::<Seq<char>>::empty());
        assert(self.args.deep_view().take(0) =~= Seq::<ArgView>::empty());
        while i < self.args.len()
            invariant
                i <= self.args.len(),
                args.deep_view() == substitute(
                    self.args.deep_view().take(i as int),
                    user_args.deep_view(),
                ),
            decreases self.args.len() - i,
        {
            assert(self.args.deep_view().take(i + 1).drop_last() =~= self.args.deep_view().take(
                i as int,
            ));
            assert(self.args.deep_view().take(i + 1).last() == self.args@[i as int]@);
            match &self.args[i] {
                Arg::StaticArg(arg) => {
                    push_text(&mut args, arg.clone());
                    assert(args.deep_view() =~= substitute(
                        self.args.deep_view().take(i as int),
                        user_args.deep_view(),
                    ) + seq![arg@]);
                },
                Arg::FieldCode => {
                    extend_texts(&mut args, &user_args);
                },
            }
            i += 1;
        }
        assert(self.args.deep_view().take(self.args.len() as int) =~= self.args.deep_view());
        CmdLine { cmd: self.program.clone(), args }
    }

    /// The command that the template gives with `user_args` in the place of
    /// its variable argument, or nothing where the template is malformed: where
    /// it has more than one variable argument.
    pub fn checked_command_line(&self, user_args: Vec<String>) -> (r: Option<CmdLine>)
        ensures
            match r {
                Some(cmd) => field_codes(self@.args) <= 1 && cmd@ == spec_command_line(
                    self@,
                    user_args.deep_view(),
                ),
                None => field_codes(self@.args) > 1,
            },
    {
        if self.field_code_count() <= 1 {
            Some(self.get_command_line(user_args))
        } else {
            None
        }
    }
}

impl std::str::FromStr for Exec {
    type Err = Error;

    /// Splits a command template into its program and arguments, as
    /// `Exec::parse` does.
    fn from_str(s: &str) -> (r: Result<Exec, Error>)
        ensures
            match r {
                Ok(parsed) => spec_parse_exec(s@) == Some(parsed@),
                Err(e) => spec_parse_exec(s@) is None && e@ == ErrorView::InvalidCommandLine(s@),
            },
    {
        Exec::parse(s)
    }
}

impl std::str::FromStr for Arg {
    type Err = Error;

    /// The argument that the token `s` stands for, as `Arg::parse` gives it.
    /// Every token stands for one.
    fn from_str(s: &str) -> (r: Result<Arg, Error>)
        ensures
            r is Ok,
            r->Ok_0@ == spec_arg(s@),
    {
        Ok(Arg::parse(s))
    }
}

/// Whether `%` followed by `letter` occurs in `chars`.
fn contains_marker(chars: &Vec<char>, letter: char) -> (r: bool)
    ensures
        r == has_marker(chars@, letter),
{
    if chars.len() < 2 {
        return false;
    }
    let mut i: usize = 0;
    while i < chars.len() - 1
        invariant
            chars.len() >= 2,
            i <= chars.len() - 1,
            forall|j: int|
                0 <= j < i ==> !(chars@[j] == '%' && #[trigger] chars@[j + 1] == letter),
        decreases chars.len() - i,
    {
        if chars[i] == '%' && chars[i + 1] == letter {
            return true;
        }
        i += 1;
    }
    false
}

impl FieldCode {
    /// The code of the first of `%f`, `%F`, `%u`, `%U`, in this order of
    /// preference, that occurs anywhere in the template; none where the
    /// template takes no files or URLs.
    pub fn extract_field_code(template: &str) -> (r: Option<FieldCode>)
        ensures
            r == spec_extract_field_code(template@),
    {
        let chars = chars_of(template);
        if contains_marker(&chars, 'f') {
            Some(FieldCode::SingleFile)
        } else if contains_marker(&chars, 'F') {
            Some(FieldCode::MultipleFiles)
        } else if contains_marker(&chars, 'u') {
            Some(FieldCode::SingleUrl)
        } else if contains_marker(&chars, 'U') {
            Some(FieldCode::MultipleUrls)
        } else {
            None
        }
    }

    /// The commands that `template` gives for the files or URLs `args`.
    pub fn expand_exec(&self, template: &Exec, args: Vec<String>) -> (r: Vec<CmdLine>)
        requires
            field_codes(template@.args) <= 1,
        ensures
            r.deep_view() == spec_expand_exec(*self, template@, args.deep_view()),
    {
        let mut lines: Vec<CmdLine> = Vec::new();
        if args.len() == 0 {
            assert(args.deep_view() =~= Seq::<Seq<char>>::empty());
            lines.push(template.get_command_line(args));
            assert(lines.deep_view() =~= spec_expand_exec(*self, template@, args.deep_view()));
            return lines;
        }
        match self {
            FieldCode::SingleFile | FieldCode::SingleUrl => {
                let mut i: usize = 0;
                while i < args.len()
                    invariant
                        i <= args.len(),
                        field_codes(template@.args) <= 1,
                        lines.len() == i,
                        forall|j: int|
                            0 <= j < i ==> (#[trigger] lines@[j])@ == spec_command_line(
                                template@,
                                seq![args@[j]@],
                            ),
                    decreases args.len() - i,
                {
                    let mut one: Vec<String> = Vec::new();
                    one.push(args[i].clone());
                    assert(one.deep_view() =~= seq![args@[i as int]@]);
                    lines.push(template.get_command_line(one));
                    i += 1;
                }
                assert(lines.deep_view() =~= spec_expand_exec(*self, template@, args.deep_view()));
            },
            FieldCode::MultipleFiles | FieldCode::MultipleUrls => {
                lines.push(template.get_command_line(args));
                assert(lines.deep_view() =~= spec_expand_exec(*self, template@, args.deep_view()));
            },
        }
        lines
    }
}

/// The commands that `template` gives for the files or URLs `args` under an
/// optional code. Without a code the template takes none, and `args` is left
/// out: there is one command, without them.
pub fn expand(template: &Exec, kind: Option<FieldCode>, args: Vec<String>) -> (r: Vec<CmdLine>)
    requires
        field_codes(template@.args) <= 1,
    ensures
        r.deep_view() == spec_expand(kind, template@, args.deep_view()),
{
    match kind {
        Some(code) => code.expand_exec(template, args),
        None => {
            let mut lines: Vec<CmdLine> = Vec::new();
            let none: Vec<String> = Vec::new();
            assert(none.deep_view() =~= Seq::<Seq<char>>::empty());
            lines.push(template.get_command_line(none));
            assert(lines.deep_view() =~= spec_expand(kind, template@, args.deep_view()));
            lines
        },
    }
}

} // verus!
