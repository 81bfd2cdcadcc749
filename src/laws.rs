//! Laws relating rendering and reading of directives.
use vstd::prelude::*;
use vstd::string::*;
use crate::ast::{file_fields, loc_fields, quoted_path, File, Loc};
use crate::function::{is_file_line, is_loc_line};
use crate::text::{
    dec, is_digit, is_ws, lemma_dec, lemma_find_from, lemma_split_ws_space, lemma_split_ws_word,
    split_ws,
};

verus! {

proof fn lemma_digits_word(n: nat)
    ensures
        dec(n).len() > 0,
        forall|i: int| 0 <= i < dec(n).len() ==> !is_ws(#[trigger] dec(n)[i]) && dec(n)[i] != '"'
            && dec(n)[i] != ':',
{
    lemma_dec(n);
    assert forall|i: int| 0 <= i < dec(n).len() implies !is_ws(#[trigger] dec(n)[i]) && dec(n)[i]
        != '"' && dec(n)[i] != ':' by {
        assert(is_digit(dec(n)[i]));
    }
}

/// Reading a rendered location directive gives back the location: the line is
/// classified as a `.loc` directive and its fields are those of `l`.
pub proof fn lemma_loc_round_trip(l: Loc)
    ensures
        is_loc_line(l.formatted()),
        loc_fields(l.formatted()) == Some(l),
{
    reveal_strlit(".loc ");
    reveal_strlit(".loc");
    reveal_strlit(".file");
    reveal_strlit(".");
    reveal_strlit(" ");
    let a = dec(l.file_index as nat);
    let b = dec(l.file_line as nat);
    let c = dec(l.file_column as nat);
    lemma_dec(l.file_index as nat);
    lemma_dec(l.file_line as nat);
    lemma_dec(l.file_column as nat);
    lemma_digits_word(l.file_index as nat);
    lemma_digits_word(l.file_line as nat);
    lemma_digits_word(l.file_column as nat);
    let s = l.formatted();
    let head = ".loc"@;
    let sp = seq![' '];
    assert(s =~= head + sp + (a + sp + (b + sp + c)));
    lemma_split_ws_space(head, a + sp + (b + sp + c));
    lemma_split_ws_space(a, b + sp + c);
    lemma_split_ws_space(b, c);
    lemma_split_ws_word(head);
    lemma_split_ws_word(a);
    lemma_split_ws_word(b);
    lemma_split_ws_word(c);
    let t = split_ws(s);
    assert(t =~= seq![head, a, b, c]);
    assert(s.subrange(0, 4) =~= head);
    assert(s.subrange(0, 1) =~= "."@);
    assert(s[1] != ".file"@[1]);
    assert(s.last() == c.last());
}

/// Reading a rendered file directive gives back its index and path, for any
/// path without a double quote: the line is classified as a `.file` directive
/// and its fields are those of `f`.
pub proof fn lemma_file_round_trip(f: File)
    requires
        forall|i: int| 0 <= i < f.path@.len() ==> f.path@[i] != '"',
    ensures
        is_file_line(f.formatted()),
        file_fields(f.formatted()) == Some((f.path@, f.index)),
{
    reveal_strlit(".file ");
    reveal_strlit(".file");
    reveal_strlit(".");
    reveal_strlit(" \"");
    reveal_strlit("\"");
    let d = dec(f.index as nat);
    lemma_dec(f.index as nat);
    lemma_digits_word(f.index as nat);
    let p = f.path@;
    let s = f.formatted();
    let head = ".file"@;
    let sp = seq![' '];
    let q = seq!['"'];
    let rest = q + p + q;
    assert(s =~= head + sp + (d + sp + rest));
    lemma_split_ws_space(head, d + sp + rest);
    lemma_split_ws_space(d, rest);
    lemma_split_ws_word(head);
    lemma_split_ws_word(d);
    let t = split_ws(s);
    assert(t =~= seq![head, d] + split_ws(rest));
    let open_q = 7 + d.len() as int;
    let close_q = open_q + 1 + p.len() as int;
    assert forall|j: int| 0 <= j < open_q implies s[j] != '"' by {
        if j < 6 {
            assert(s[j] == ".file "@[j]);
        } else if j < 6 + d.len() {
            assert(s[j] == d[j - 6]);
        } else {
            assert(s[j] == ' ');
        }
    }
    lemma_find_from(s, '"', 0, open_q);
    assert forall|j: int| open_q + 1 <= j < close_q implies s[j] != '"' by {
        assert(s[j] == p[j - open_q - 1]);
    }
    lemma_find_from(s, '"', open_q + 1, close_q);
    assert(quoted_path(s) == Some(s.subrange(open_q + 1, close_q)));
    assert(s.subrange(open_q + 1, close_q) =~= p);
    assert(s.subrange(0, 5) =~= head);
    assert(s.subrange(0, 1) =~= "."@);
    assert(s.last() == '"');
}

} // verus!
