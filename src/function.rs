//! The statements of one function, read front to back from its listing.
use vstd::prelude::*;
use vstd::string::*;
use crate::ast::{
    classify_error, file_fields, loc_fields, views, Directive, ErrorKind, File, Loc, Options,
    Statement,
};
use crate::text::{ends_with_char, starts_with};

verus! {

/// AST of an asm function.
#[derive(Clone, Debug)]
pub struct Function {
    pub id: String,
    /// The first `.file` directive of the listing.
    pub file: Option<File>,
    /// The first `.loc` directive of the listing.
    pub loc: Option<Loc>,
    pub statements: Vec<Statement>,
}

/// A line that could not be read, with its position in the listing.
#[derive(Clone, Debug)]
pub struct ParseError {
    pub kind: ErrorKind,
    pub line: String,
    pub position: usize,
}

/// Whether `s` classifies as a `.file` directive.
pub open spec fn is_file_line(s: Seq<char>) -> bool {
    !ends_with_char(s, ':') && starts_with(s, "."@) && starts_with(s, ".file"@)
}

/// Whether `s` classifies as a `.loc` directive.
pub open spec fn is_loc_line(s: Seq<char>) -> bool {
    !ends_with_char(s, ':') && starts_with(s, "."@) && !starts_with(s, ".file"@) && starts_with(
        s,
        ".loc"@,
    )
}

/// The location in effect after line `s`, when `cur` was in effect before it.
pub open spec fn loc_after(s: Seq<char>, cur: Option<Loc>) -> Option<Loc> {
    if is_loc_line(s) && loc_fields(s) is Some {
        loc_fields(s)
    } else {
        cur
    }
}

/// The location in effect before line `k`: that of the last `.loc` line above it.
pub open spec fn loc_before(lines: Seq<Seq<char>>, k: int) -> Option<Loc>
    decreases k,
{
    if k <= 0 {
        None
    } else {
        loc_after(lines[k - 1], loc_before(lines, k - 1))
    }
}

/// What the listing `stmts` shows under `opts`: the rendering of each visible
/// statement, in order.
pub open spec fn rendered(stmts: Seq<Statement>, opts: Options) -> Seq<Seq<char>>
    decreases stmts.len(),
{
    if stmts.len() == 0 {
        seq![]
    } else {
        let r = rendered(stmts.drop_last(), opts);
        if stmts.last().visible(opts) {
            r.push(stmts.last().formatted(opts))
        } else {
            r
        }
    }
}

impl Function {
    /// Classifies each line in order; a label or instruction carries the location
    /// of the last `.loc` line before it. Fails at the first line that cannot be
    /// read.
    pub fn new<D: Fn(&str) -> String>(id: &str, lines: &Vec<String>, demangle: &D) -> (r: Result<
        Function,
        ParseError,
    >)
        requires
            forall|a: &str| demangle.requires((a,)),
        ensures
            r is Ok <==> forall|j: int| 0 <= j < lines@.len() ==> classify_error(
                #[trigger] lines@[j]@,
            ) is None,
            r is Err ==> ({
                let e = r->Err_0;
                &&& e.position < lines@.len()
                &&& classify_error(lines@[e.position as int]@) == Some(e.kind)
                &&& e.line@ == lines@[e.position as int]@
                &&& forall|j: int| 0 <= j < e.position ==> classify_error(#[trigger] lines@[j]@) is None
            }),
            r is Ok ==> ({
                let f = r->Ok_0;
                let lv = views(lines@);
                &&& f.id@ == id@
                &&& f.statements@.len() == lines@.len()
                &&& forall|j: int|
                    0 <= j < lines@.len() ==> #[trigger] f.statements@[j].reads(
                        lv[j],
                        loc_before(lv, j),
                        demangle,
                    )
                &&& f.file is None <==> forall|j: int|
                    0 <= j < lines@.len() ==> !is_file_line(#[trigger] lv[j])
                &&& f.file is Some ==> exists|k: int|
                    0 <= k < lines@.len() && is_file_line(lv[k]) && (forall|j: int|
                        0 <= j < k ==> !is_file_line(#[trigger] lv[j])) && file_fields(lv[k])
                        == Some((f.file->Some_0.path@, f.file->Some_0.index))
                &&& f.loc is None <==> forall|j: int|
                    0 <= j < lines@.len() ==> !is_loc_line(#[trigger] lv[j])
                &&& f.loc is Some ==> exists|k: int|
                    0 <= k < lines@.len() && is_loc_line(lv[k]) && (forall|j: int|
                        0 <= j < k ==> !is_loc_line(#[trigger] lv[j])) && loc_fields(lv[k])
                        == f.loc
            }),
    {
        let ghost lv = views(lines@);
        let mut statements: Vec<Statement> = Vec::new();
        let mut cur: Option<Loc> = None;
        let mut file: Option<File> = None;
        let mut loc: Option<Loc> = None;
        let ghost mut fpos: int = 0;
        let ghost mut lpos: int = 0;
        let mut k: usize = 0;
        while k < lines.len()
            invariant
                forall|a: &str| demangle.requires((a,)),
                lv == views(lines@),
                lv.len() == lines@.len(),
                k <= lines@.len(),
                statements@.len() == k,
                cur == loc_before(lv, k as int),
                forall|j: int| 0 <= j < k ==> classify_error(#[trigger] lines@[j]@) is None,
                forall|j: int|
                    0 <= j < k ==> #[trigger] statements@[j].reads(
                        lv[j],
                        loc_before(lv, j),
                        demangle,
                    ),
                file is None ==> forall|j: int| 0 <= j < k ==> !is_file_line(#[trigger] lv[j]),
                file is Some ==> 0 <= fpos < k && is_file_line(lv[fpos]) && (forall|j: int|
                    0 <= j < fpos ==> !is_file_line(#[trigger] lv[j])) && file_fields(lv[fpos])
                    == Some((file->Some_0.path@, file->Some_0.index)),
                loc is None ==> forall|j: int| 0 <= j < k ==> !is_loc_line(#[trigger] lv[j]),
                loc is Some ==> 0 <= lpos < k && is_loc_line(lv[lpos]) && (forall|j: int|
                    0 <= j < lpos ==> !is_loc_line(#[trigger] lv[j])) && loc_fields(lv[lpos])
                    == loc,
            decreases lines@.len() - k,
        {
            let line = lines[k].as_str();
            assert(lv[k as int] == line@);
            let st = match Statement::classify(line, cur, demangle) {
                Ok(st) => st,
                Err(kind) => {
                    return Err(ParseError { kind, line: String::from_str(line), position: k });
                },
            };
            match &st {
                Statement::Directive(Directive::Loc(l)) => {
                    cur = Some(*l);
                    if loc.is_none() {
                        loc = Some(*l);
                        proof {
                            lpos = k as int;
                        }
                    }
                },
                Statement::Directive(Directive::File(f)) => {
                    if file.is_none() {
                        file = Some(File { path: f.path.clone(), index: f.index });
                        proof {
                            fpos = k as int;
                        }
                    }
                },
                _ => {},
            }
            statements.push(st);
            k = k + 1;
        }
        Ok(Function { id: String::from_str(id), file, loc, statements })
    }

    /// The renderings of the statements that `opts` shows, in order.
    pub fn render(&self, opts: &Options) -> (r: Vec<String>)
        ensures
            views(r@) == rendered(self.statements@, *opts),
    {
        let mut r: Vec<String> = Vec::new();
        let mut k: usize = 0;
        while k < self.statements.len()
            invariant
                k <= self.statements@.len(),
                views(r@) == rendered(self.statements@.subrange(0, k as int), *opts),
            decreases self.statements@.len() - k,
        {
            let ghost sub = self.statements@.subrange(0, k + 1);
            assert(sub.drop_last() =~= self.statements@.subrange(0, k as int));
            let st = &self.statements[k];
            if st.should_print(opts) {
                r.push(st.format(opts));
            }
            assert(views(r@) =~= rendered(sub, *opts));
            k = k + 1;
        }
        assert(self.statements@.subrange(0, k as int) =~= self.statements@);
        r
    }
}

} // verus!
