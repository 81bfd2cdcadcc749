//! Statements of an assembly listing and how each is read from one line.
use vstd::prelude::*;
use vstd::string::*;
use crate::text::{
    dec, decimal, ends_with_char, find_char, find_from, has_prefix, join_space, join_with_space,
    last_is, parse_unsigned, parse_usize, same_text, split_whitespace, split_ws, starts_with,
};

verus! {

/// Display options of a rendering.
#[derive(Clone, Copy, Debug, PartialEq, Eq, Structural)]
pub struct Options {
    /// Print directives.
    pub directives: bool,
    /// Print comments.
    pub comments: bool,
    /// Append the source location to each instruction.
    pub verbose: bool,
}

/// Why a line could not be read.
#[derive(Clone, Copy, Debug, PartialEq, Eq, Structural)]
pub enum ErrorKind {
    MalformedFileDirective,
    MalformedLocDirective,
    EmptyInstruction,
}

/// A point in a source file: `.loc <file_index> <line> [<column>]`.
#[derive(Clone, Copy, Debug, PartialEq, Eq, Structural)]
pub struct Loc {
    pub file_index: usize,
    pub file_line: usize,
    pub file_column: usize,
}

/// A source file reference: `.file <index> "<path>"`.
#[derive(Clone, Debug)]
pub struct File {
    pub path: String,
    pub index: usize,
}

/// Asm labels, e.g. `LBB0:`.
#[derive(Clone, Debug)]
pub struct Label {
    pub id: String,
    pub rust_loc_off: Option<Loc>,
}

/// Any directive other than `.file` and `.loc`, kept verbatim.
#[derive(Clone, Debug)]
pub struct GenericDirective {
    pub string: String,
}

/// Asm directives, e.g. `.p2align 4`.
#[derive(Clone, Debug)]
pub enum Directive {
    File(File),
    Loc(Loc),
    Generic(GenericDirective),
}

/// Asm comments, e.g. `;; this is a comment`.
#[derive(Clone, Debug)]
pub struct Comment {
    pub string: String,
}

/// Asm instructions: every line that is not a label, a directive or a comment.
#[derive(Clone, Debug)]
pub struct Instruction {
    pub instr: String,
    pub args: Vec<String>,
    pub rust_loc_off: Option<Loc>,
}

/// One statement of a listing.
#[derive(Clone, Debug)]
pub enum Statement {
    Label(Label),
    Directive(Directive),
    Instruction(Instruction),
    Comment(Comment),
}

/// The text between the first two double quotes of `s`, if it has two.
pub open spec fn quoted_path(s: Seq<char>) -> Option<Seq<char>> {
    let q1 = find_from(s, '"', 0);
    let q2 = find_from(s, '"', q1 + 1);
    if q1 < s.len() && q2 < s.len() {
        Some(s.subrange(q1 + 1, q2))
    } else {
        None
    }
}

/// Path and index of a `.file` line: the quoted text and the second token.
pub open spec fn file_fields(s: Seq<char>) -> Option<(Seq<char>, usize)> {
    let t = split_ws(s);
    match quoted_path(s) {
        Some(p) => if t.len() >= 2 {
            match parse_usize(t[1]) {
                Some(i) => Some((p, i)),
                None => None,
            }
        } else {
            None
        },
        None => None,
    }
}

/// The location of a `.loc` line: tokens two to four, the fourth defaulting to 0.
pub open spec fn loc_fields(s: Seq<char>) -> Option<Loc> {
    let t = split_ws(s);
    let col = if t.len() >= 4 {
        parse_usize(t[3])
    } else {
        Some(0usize)
    };
    if t.len() >= 3 && parse_usize(t[1]).is_some() && parse_usize(t[2]).is_some()
        && col.is_some() {
        Some(
            Loc {
                file_index: parse_usize(t[1]).unwrap(),
                file_line: parse_usize(t[2]).unwrap(),
                file_column: col.unwrap(),
            },
        )
    } else {
        None
    }
}

impl PartialEq for File {
    fn eq(&self, o: &File) -> (r: bool) {
        self.index == o.index && self.path == o.path
    }
}

impl vstd::std_specs::cmp::PartialEqSpecImpl for File {
    open spec fn obeys_eq_spec() -> bool {
        true
    }

    open spec fn eq_spec(&self, o: &File) -> bool {
        self.index == o.index && self.path@ == o.path@
    }
}

impl Label {
    /// A label from a line that ends with `:`; the id is the line without it.
    pub fn new(s: &str, rust_loc_off: Option<Loc>) -> (r: Option<Self>)
        ensures
            r.is_some() == ends_with_char(s@, ':'),
            r.is_some() ==> r.unwrap().id@ == s@.drop_last() && r.unwrap().rust_loc_off
                == rust_loc_off,
    {
        if last_is(s, ':') {
            let n = s.unicode_len();
            let id = String::from_str(s.substring_char(0, n - 1));
            assert(id@ =~= s@.drop_last());
            return Some(Self { id, rust_loc_off });
        }
        None
    }

    /// The location in effect where the label stood.
    pub fn rust_loc(&self) -> (r: Option<Loc>)
        ensures
            r == self.rust_loc_off,
    {
        self.rust_loc_off
    }
}

impl File {
    /// Reads a `.file` line; `Ok(None)` when the line is not one.
    pub fn new(s: &str) -> (r: Result<Option<Self>, ErrorKind>)
        ensures
            !starts_with(s@, ".file"@) ==> r == Ok::<Option<File>, ErrorKind>(None),
            starts_with(s@, ".file"@) ==> match r {
                Ok(Some(f)) => file_fields(s@) == Some((f.path@, f.index)),
                Ok(None) => false,
                Err(e) => file_fields(s@).is_none() && e == ErrorKind::MalformedFileDirective,
            },
    {
        if !has_prefix(s, ".file") {
            return Ok(None);
        }
        let n = s.unicode_len();
        let q1 = find_char(s, '"', 0);
        if q1 >= n {
            return Err(ErrorKind::MalformedFileDirective);
        }
        let q2 = find_char(s, '"', q1 + 1);
        if q2 >= n {
            return Err(ErrorKind::MalformedFileDirective);
        }
        let path = String::from_str(s.substring_char(q1 + 1, q2));
        let t = split_whitespace(s);
        proof {
            assert(t@.map_values(|x: String| x@).len() == t@.len());
        }
        if t.len() < 2 {
            return Err(ErrorKind::MalformedFileDirective);
        }
        assert(t@.map_values(|x: String| x@)[1] == t@[1]@);
        match parse_unsigned(t[1].as_str()) {
            Some(index) => Ok(Some(File { path, index })),
            None => Err(ErrorKind::MalformedFileDirective),
        }
    }

    /// A file directive carries no location.
    pub fn rust_loc(&self) -> (r: Option<Loc>)
        ensures
            r.is_none(),
    {
        None
    }
}

impl Loc {
    /// Reads a `.loc` line; `Ok(None)` when the line is not one.
    pub fn new(s: &str) -> (r: Result<Option<Self>, ErrorKind>)
        ensures
            r == if !starts_with(s@, ".loc"@) {
                Ok::<Option<Loc>, ErrorKind>(None)
            } else {
                match loc_fields(s@) {
                    Some(l) => Ok(Some(l)),
                    None => Err(ErrorKind::MalformedLocDirective),
                }
            },
    {
        if !has_prefix(s, ".loc") {
            return Ok(None);
        }
        let t = split_whitespace(s);
        let ghost tv = t@.map_values(|x: String| x@);
        assert(tv.len() == t@.len());
        if t.len() < 3 {
            return Err(ErrorKind::MalformedLocDirective);
        }
        assert(tv[1] == t@[1]@ && tv[2] == t@[2]@);
        let file_index = match parse_unsigned(t[1].as_str()) {
            Some(v) => v,
            None => {
                return Err(ErrorKind::MalformedLocDirective);
            },
        };
        let file_line = match parse_unsigned(t[2].as_str()) {
            Some(v) => v,
            None => {
                return Err(ErrorKind::MalformedLocDirective);
            },
        };
        let file_column = if t.len() >= 4 {
            assert(tv[3] == t@[3]@);
            match parse_unsigned(t[3].as_str()) {
                Some(v) => v,
                None => {
                    return Err(ErrorKind::MalformedLocDirective);
                },
            }
        } else {
            0
        };
        Ok(Some(Loc { file_index, file_line, file_column }))
    }

    /// A location directive sets the location of what follows; it has none itself.
    pub fn rust_loc(&self) -> (r: Option<Loc>)
        ensures
            r.is_none(),
    {
        None
    }
}

impl GenericDirective {
    /// Any line that starts with `.`, kept verbatim.
    pub fn new(s: &str) -> (r: Option<Self>)
        ensures
            r.is_some() == starts_with(s@, "."@),
            r.is_some() ==> r.unwrap().string@ == s@,
    {
        if has_prefix(s, ".") {
            return Some(Self { string: String::from_str(s) });
        }
        None
    }

    pub fn rust_loc(&self) -> (r: Option<Loc>)
        ensures
            r.is_none(),
    {
        None
    }
}

impl Comment {
    /// Any line that starts with `;`, kept verbatim.
    pub fn new(s: &str) -> (r: Option<Self>)
        ensures
            r.is_some() == starts_with(s@, ";"@),
            r.is_some() ==> r.unwrap().string@ == s@,
    {
        if has_prefix(s, ";") {
            return Some(Self { string: String::from_str(s) });
        }
        None
    }

    pub fn rust_loc(&self) -> (r: Option<Loc>)
        ensures
            r.is_none(),
    {
        None
    }
}

/// The error a `.`-line gives, if any.
pub open spec fn directive_error(s: Seq<char>) -> Option<ErrorKind> {
    if starts_with(s, ".file"@) {
        if file_fields(s).is_none() {
            Some(ErrorKind::MalformedFileDirective)
        } else {
            None
        }
    } else if starts_with(s, ".loc"@) {
        if loc_fields(s).is_none() {
            Some(ErrorKind::MalformedLocDirective)
        } else {
            None
        }
    } else {
        None
    }
}

/// The error a line gives when it is classified, if any.
pub open spec fn classify_error(s: Seq<char>) -> Option<ErrorKind> {
    if ends_with_char(s, ':') {
        None
    } else if starts_with(s, "."@) {
        directive_error(s)
    } else if starts_with(s, ";"@) {
        None
    } else if split_ws(s).len() == 0 {
        Some(ErrorKind::EmptyInstruction)
    } else {
        None
    }
}

/// The mnemonic whose first operand is a symbol to demangle.
pub open spec fn is_call(m: Seq<char>) -> bool {
    m == "call"@
}

/// The text that verbose rendering shows for a location: only file index and line.
pub open spec fn rloc_text(l: Option<Loc>) -> Seq<char> {
    match l {
        Some(l) => "Some(("@ + dec(l.file_index as nat) + ", "@ + dec(l.file_line as nat) + "))"@,
        None => "None"@,
    }
}

/// Whether a label id is one of the compiler's internal markers.
pub open spec fn is_internal_label(id: Seq<char>) -> bool {
    starts_with(id, "Lcfi"@) || starts_with(id, "Ltmp"@) || starts_with(id, "Lfunc_end"@)
}

impl Label {
    pub open spec fn formatted(&self) -> Seq<char> {
        "  "@ + self.id@ + ":"@
    }

    /// Compiler-internal labels (`Lcfi`, `Ltmp`, `Lfunc_end`) are hidden.
    pub fn should_print(&self, _opts: &Options) -> (r: bool)
        ensures
            r == !is_internal_label(self.id@),
    {
        let id = self.id.as_str();
        !has_prefix(id, "Lcfi") && !has_prefix(id, "Ltmp") && !has_prefix(id, "Lfunc_end")
    }

    pub fn format(&self, _opts: &Options) -> (r: String)
        ensures
            r@ == self.formatted(),
    {
        let mut r = String::from_str("  ");
        r.append(self.id.as_str());
        r.append(":");
        r
    }
}

impl File {
    pub open spec fn formatted(&self) -> Seq<char> {
        ".file "@ + dec(self.index as nat) + " \""@ + self.path@ + "\""@
    }

    pub fn format(&self, _opts: &Options) -> (r: String)
        ensures
            r@ == self.formatted(),
    {
        let mut r = String::from_str(".file ");
        let index = decimal(self.index);
        r.append(index.as_str());
        r.append(" \"");
        r.append(self.path.as_str());
        r.append("\"");
        r
    }
}

impl Loc {
    pub open spec fn formatted(&self) -> Seq<char> {
        ".loc "@ + dec(self.file_index as nat) + " "@ + dec(self.file_line as nat) + " "@ + dec(
            self.file_column as nat,
        )
    }

    pub fn format(&self, _opts: &Options) -> (r: String)
        ensures
            r@ == self.formatted(),
    {
        let mut r = String::from_str(".loc ");
        let a = decimal(self.file_index);
        r.append(a.as_str());
        r.append(" ");
        let b = decimal(self.file_line);
        r.append(b.as_str());
        r.append(" ");
        let c = decimal(self.file_column);
        r.append(c.as_str());
        r
    }
}

impl GenericDirective {
    pub fn format(&self, _opts: &Options) -> (r: String)
        ensures
            r@ == self.string@,
    {
        self.string.clone()
    }
}

impl Directive {
    /// Whether this directive is what the `.`-line `s` reads as.
    pub open spec fn reads(&self, s: Seq<char>) -> bool {
        if starts_with(s, ".file"@) {
            self is File && file_fields(s) == Some((self->File_0.path@, self->File_0.index))
        } else if starts_with(s, ".loc"@) {
            self is Loc && loc_fields(s) == Some(self->Loc_0)
        } else {
            self is Generic && self->Generic_0.string@ == s
        }
    }

    pub open spec fn formatted(&self) -> Seq<char> {
        match self {
            Directive::File(f) => f.formatted(),
            Directive::Loc(l) => l.formatted(),
            Directive::Generic(g) => g.string@,
        }
    }

    /// Reads a line that starts with `.`; `Ok(None)` for any other line.
    pub fn new(s: &str) -> (r: Result<Option<Self>, ErrorKind>)
        ensures
            !starts_with(s@, "."@) ==> r is Ok && r->Ok_0 is None,
            starts_with(s@, "."@) ==> match r {
                Ok(Some(d)) => directive_error(s@).is_none() && d.reads(s@),
                Ok(None) => false,
                Err(e) => directive_error(s@) == Some(e),
            },
    {
        if has_prefix(s, ".") {
            match File::new(s) {
                Ok(Some(file)) => {
                    return Ok(Some(Directive::File(file)));
                },
                Ok(None) => {},
                Err(e) => {
                    return Err(e);
                },
            }
            match Loc::new(s) {
                Ok(Some(loc)) => {
                    return Ok(Some(Directive::Loc(loc)));
                },
                Ok(None) => {},
                Err(e) => {
                    return Err(e);
                },
            }
            match GenericDirective::new(s) {
                Some(g) => {
                    return Ok(Some(Directive::Generic(g)));
                },
                None => {},
            }
        }
        Ok(None)
    }

    /// Directives carry no location.
    pub fn rust_loc(&self) -> (r: Option<Loc>)
        ensures
            r.is_none(),
    {
        match self {
            Directive::File(f) => f.rust_loc(),
            Directive::Loc(l) => l.rust_loc(),
            Directive::Generic(g) => g.rust_loc(),
        }
    }

    /// The file reference of a `.file` directive.
    pub fn file(&self) -> (r: Option<File>)
        ensures
            match self {
                Directive::File(f) => r is Some && r->Some_0.path@ == f.path@ && r->Some_0.index
                    == f.index,
                _ => r is None,
            },
    {
        match self {
            Directive::File(f) => Some(File { path: f.path.clone(), index: f.index }),
            _ => None,
        }
    }

    /// The location of a `.loc` directive.
    pub fn loc(&self) -> (r: Option<Loc>)
        ensures
            r == match self {
                Directive::Loc(l) => Some(*l),
                _ => None,
            },
    {
        match self {
            Directive::Loc(l) => Some(*l),
            _ => None,
        }
    }

    /// Directives are shown exactly when the options ask for them.
    pub fn should_print(&self, opts: &Options) -> (r: bool)
        ensures
            r == opts.directives,
    {
        opts.directives
    }

    pub fn format(&self, opts: &Options) -> (r: String)
        ensures
            r@ == self.formatted(),
    {
        match self {
            Directive::File(f) => f.format(opts),
            Directive::Loc(l) => l.format(opts),
            Directive::Generic(g) => g.format(opts),
        }
    }
}

impl Comment {
    pub open spec fn formatted(&self) -> Seq<char> {
        "  "@ + self.string@
    }

    /// Comments are shown exactly when the options ask for them.
    pub fn should_print(&self, opts: &Options) -> (r: bool)
        ensures
            r == opts.comments,
    {
        opts.comments
    }

    pub fn format(&self, _opts: &Options) -> (r: String)
        ensures
            r@ == self.formatted(),
    {
        let mut r = String::from_str("  ");
        r.append(self.string.as_str());
        r
    }
}

/// The views of a sequence of strings.
pub open spec fn views(v: Seq<String>) -> Seq<Seq<char>> {
    v.map_values(|x: String| x@)
}

impl Instruction {
    /// Whether this instruction is what `s` reads as, where `cur` is the location
    /// in effect and `demangle` rewrites the target of a `call`.
    pub open spec fn reads<D: Fn(&str) -> String>(
        &self,
        s: Seq<char>,
        cur: Option<Loc>,
        demangle: &D,
    ) -> bool {
        let t = split_ws(s);
        let demangled = is_call(t[0]) && t.len() >= 2;
        &&& t.len() > 0
        &&& self.instr@ == t[0]
        &&& self.rust_loc_off == cur
        &&& self.args@.len() == t.len() - 1
        &&& forall|i: int|
            0 <= i < self.args@.len() && !(i == 0 && demangled) ==> #[trigger] self.args@[i]@
                == t[i + 1]
        &&& demangled ==> exists|a: &str| a@ == t[1] && demangle.ensures((a,), self.args@[0])
    }

    pub open spec fn formatted(&self, opts: Options) -> Seq<char> {
        "    "@ + self.instr@ + " "@ + join_space(views(self.args@)) + if opts.verbose {
            " | rloc: "@ + rloc_text(self.rust_loc_off)
        } else {
            seq![]
        }
    }

    /// Splits a line into mnemonic and operands at whitespace; the first operand
    /// of a `call` is replaced by what `demangle` makes of it.
    pub fn new<D: Fn(&str) -> String>(s: &str, rust_loc_off: Option<Loc>, demangle: &D) -> (r:
        Result<Self, ErrorKind>)
        requires
            forall|a: &str| demangle.requires((a,)),
        ensures
            r is Err <==> split_ws(s@).len() == 0,
            r is Err ==> r->Err_0 == ErrorKind::EmptyInstruction,
            r is Ok ==> r->Ok_0.reads(s@, rust_loc_off, demangle),
    {
        let t = split_whitespace(s);
        let ghost tv = views(t@);
        assert(tv.len() == t@.len());
        if t.len() == 0 {
            return Err(ErrorKind::EmptyInstruction);
        }
        let instr = t[0].clone();
        assert(tv[0] == t@[0]@);
        let mut args: Vec<String> = Vec::new();
        let mut i: usize = 1;
        while i < t.len()
            invariant
                tv == views(t@),
                tv.len() == t@.len(),
                1 <= i <= t@.len(),
                args@.len() == i - 1,
                forall|j: int| 0 <= j < args@.len() ==> #[trigger] args@[j]@ == tv[j + 1],
            decreases t@.len() - i,
        {
            assert(tv[i as int] == t@[i as int]@);
            args.push(t[i].clone());
            i = i + 1;
        }
        if same_text(instr.as_str(), "call") && args.len() >= 1 {
            let ghost before = args@;
            let a = args[0].as_str();
            let target = demangle(a);
            assert(a@ == tv[1]);
            args.set(0, target);
            assert(forall|j: int| 0 < j < args@.len() ==> args@[j] == before[j]);
            assert(exists|a: &str| a@ == tv[1] && demangle.ensures((a,), args@[0]));
        }
        let r = Self { instr, args, rust_loc_off };
        let ghost t = split_ws(s@);
        assert(t == tv);
        assert(r.instr@ == t[0]);
        assert(r.args@.len() == t.len() - 1);
        assert(forall|i: int|
            0 <= i < r.args@.len() && !(i == 0 && is_call(t[0]) && t.len() >= 2) ==> #[trigger] r.args@[i]@
                == t[i + 1]);
        assert(is_call(t[0]) && t.len() >= 2 ==> exists|a: &str| a@ == t[1] && demangle.ensures((a,), r.args@[0]));
        Ok(r)
    }

    /// The location in effect where the instruction stood.
    pub fn rust_loc(&self) -> (r: Option<Loc>)
        ensures
            r == self.rust_loc_off,
    {
        self.rust_loc_off
    }

    /// Instructions are always shown.
    pub fn should_print(&self, _opts: &Options) -> (r: bool)
        ensures
            r,
    {
        true
    }

    pub fn format(&self, opts: &Options) -> (r: String)
        ensures
            r@ == self.formatted(*opts),
    {
        let mut r = String::from_str("    ");
        r.append(self.instr.as_str());
        r.append(" ");
        let ops = join_with_space(&self.args);
        r.append(ops.as_str());
        if opts.verbose {
            r.append(" | rloc: ");
            match self.rust_loc_off {
                Some(l) => {
                    r.append("Some((");
                    let a = decimal(l.file_index);
                    r.append(a.as_str());
                    r.append(", ");
                    let b = decimal(l.file_line);
                    r.append(b.as_str());
                    r.append("))");
                },
                None => {
                    r.append("None");
                },
            }
        }
        proof {
            if !opts.verbose {
                assert(r@ =~= self.formatted(*opts));
            }
        }
        r
    }
}

impl Statement {
    /// Whether this statement is what `s` reads as, where `cur` is the location
    /// in effect and `demangle` rewrites the target of a `call`.
    pub open spec fn reads<D: Fn(&str) -> String>(
        &self,
        s: Seq<char>,
        cur: Option<Loc>,
        demangle: &D,
    ) -> bool {
        if ends_with_char(s, ':') {
            self is Label && self->Label_0.id@ == s.drop_last() && self->Label_0.rust_loc_off
                == cur
        } else if starts_with(s, "."@) {
            self is Directive && self->Directive_0.reads(s)
        } else if starts_with(s, ";"@) {
            self is Comment && self->Comment_0.string@ == s
        } else {
            self is Instruction && self->Instruction_0.reads(s, cur, demangle)
        }
    }

    /// The location a statement carries: that of a label or an instruction.
    pub open spec fn attached_loc(&self) -> Option<Loc> {
        match self {
            Statement::Label(l) => l.rust_loc_off,
            Statement::Instruction(i) => i.rust_loc_off,
            _ => None,
        }
    }

    pub open spec fn visible(&self, opts: Options) -> bool {
        match self {
            Statement::Label(l) => !is_internal_label(l.id@),
            Statement::Directive(_) => opts.directives,
            Statement::Instruction(_) => true,
            Statement::Comment(_) => opts.comments,
        }
    }

    pub open spec fn formatted(&self, opts: Options) -> Seq<char> {
        match self {
            Statement::Label(l) => l.formatted(),
            Statement::Directive(d) => d.formatted(),
            Statement::Instruction(i) => i.formatted(opts),
            Statement::Comment(c) => c.formatted(),
        }
    }

    /// Reads one line given the location in effect: a label if it ends with `:`,
    /// else a directive if it starts with `.`, else a comment if it starts with
    /// `;`, else an instruction.
    pub fn classify<D: Fn(&str) -> String>(s: &str, cur: Option<Loc>, demangle: &D) -> (r: Result<
        Self,
        ErrorKind,
    >)
        requires
            forall|a: &str| demangle.requires((a,)),
        ensures
            match r {
                Ok(st) => classify_error(s@).is_none() && st.reads(s@, cur, demangle),
                Err(e) => classify_error(s@) == Some(e),
            },
            ends_with_char(s@, ':') ==> r is Ok && r->Ok_0 is Label && r->Ok_0->Label_0.id@
                == s@.drop_last(),
    {
        if let Some(l) = Label::new(s, cur) {
            return Ok(Statement::Label(l));
        }
        match Directive::new(s) {
            Ok(Some(d)) => {
                return Ok(Statement::Directive(d));
            },
            Ok(None) => {},
            Err(e) => {
                return Err(e);
            },
        }
        if let Some(c) = Comment::new(s) {
            return Ok(Statement::Comment(c));
        }
        match Instruction::new(s, cur, demangle) {
            Ok(i) => Ok(Statement::Instruction(i)),
            Err(e) => Err(e),
        }
    }

    pub fn should_print(&self, opts: &Options) -> (r: bool)
        ensures
            r == self.visible(*opts),
            self is Directive ==> r == opts.directives,
            self is Comment ==> r == opts.comments,
    {
        match self {
            Statement::Label(l) => l.should_print(opts),
            Statement::Directive(d) => d.should_print(opts),
            Statement::Instruction(i) => i.should_print(opts),
            Statement::Comment(c) => c.should_print(opts),
        }
    }

    pub fn format(&self, opts: &Options) -> (r: String)
        ensures
            r@ == self.formatted(*opts),
    {
        match self {
            Statement::Label(l) => l.format(opts),
            Statement::Directive(d) => d.format(opts),
            Statement::Instruction(i) => i.format(opts),
            Statement::Comment(c) => c.format(opts),
        }
    }

    /// The source line of this statement within `file`: its location's line when
    /// that location is tagged with `file`'s index, none otherwise.
    pub fn rust_loc(&self, file: &File) -> (r: Option<usize>)
        ensures
            r == match self.attached_loc() {
                Some(l) => if l.file_index == file.index {
                    Some(l.file_line)
                } else {
                    None
                },
                None => None,
            },
            self.attached_loc() is Some && self.attached_loc()->Some_0.file_index != file.index
                ==> r is None,
    {
        let loc = match self {
            Statement::Label(l) => l.rust_loc(),
            Statement::Directive(d) => d.rust_loc(),
            Statement::Instruction(i) => i.rust_loc(),
            Statement::Comment(c) => c.rust_loc(),
        };
        match loc {
            Some(loc) => if loc.file_index != file.index {
                None
            } else {
                Some(loc.file_line)
            },
            None => None,
        }
    }
}

} // verus!
