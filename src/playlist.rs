//! The playlist that the transform's concat mode reads the clips from.
use vstd::prelude::*;
use crate::text::{push_char, push_str, texts};

verus! {

pub open spec fn directive() -> Seq<char> {
    seq!['f', 'i', 'l', 'e', ' ', '\'']
}

/// One playlist line: `file '<path>'` and a newline.
pub open spec fn line_spec(path: Seq<char>) -> Seq<char> {
    directive() + path + seq!['\'', '\n']
}

/// The playlist text of a list of paths, one line each, in order.
pub open spec fn playlist_spec(paths: Seq<Seq<char>>) -> Seq<char>
    decreases paths.len(),
{
    if paths.len() == 0 {
        Seq::empty()
    } else {
        line_spec(paths[0]) + playlist_spec(paths.drop_first())
    }
}

/// The number of characters before the first newline of `t`, or its length.
pub open spec fn line_len(t: Seq<char>) -> nat
    decreases t.len(),
{
    if t.len() == 0 || t[0] == '\n' { 0 } else { 1 + line_len(t.drop_first()) }
}

/// The path of a playlist line without its newline, if it has the
/// directive's form.
pub open spec fn unquote(line: Seq<char>) -> Option<Seq<char>> {
    if line.len() >= 7 && line.take(6) == directive() && line.last() == '\'' {
        Some(line.subrange(6, line.len() - 1))
    } else {
        None
    }
}

/// The paths that a playlist text lists, read line by line; none where a
/// line is not a directive.
pub open spec fn parse_spec(t: Seq<char>) -> Option<Seq<Seq<char>>>
    decreases t.len(),
{
    if t.len() == 0 {
        Some(Seq::empty())
    } else {
        let k = line_len(t);
        let rest = if k < t.len() { t.skip(k + 1 as int) } else { Seq::empty() };
        match unquote(t.take(k as int)) {
            None => None,
            Some(p) => match parse_spec(rest) {
                None => None,
                Some(ps) => Some(seq![p] + ps),
            },
        }
    }
}

pub open spec fn has_no_newline(p: Seq<char>) -> bool {
    forall|i: int| 0 <= i < p.len() ==> p[i] != '\n'
}

/// Writes the playlist of the clips, in the order given.
pub fn playlist_text(paths: &Vec<String>) -> (r: String)
    ensures
        r@ == playlist_spec(texts(paths@)),
{
    let mut r = String::new();
    let ghost ps = texts(paths@);
    let mut j: usize = 0;
    assert(ps.skip(0) =~= ps);
    assert(r@ + playlist_spec(ps) =~= playlist_spec(ps));
    while j < paths.len()
        invariant
            j <= paths@.len(),
            ps == texts(paths@),
            r@ + playlist_spec(ps.skip(j as int)) == playlist_spec(ps),
        decreases paths@.len() - j,
    {
        proof {
            assert(ps.skip(j as int).drop_first() =~= ps.skip(j + 1));
            assert(ps.skip(j as int)[0] == paths@[j as int]@);
        }
        let ghost before = r@;
        push_str(&mut r, "file '");
        proof {
            reveal_strlit("file '");
            assert("file '"@ =~= directive());
        }
        push_str(&mut r, paths[j].as_str());
        push_char(&mut r, '\'');
        push_char(&mut r, '\n');
        assert(r@ =~= before + line_spec(ps[j as int]));
        assert(before + line_spec(ps[j as int]) + playlist_spec(ps.skip(j + 1)) =~= before + (
        line_spec(ps[j as int]) + playlist_spec(ps.skip(j + 1))));
        j = j + 1;
    }
    proof {
        assert(ps.skip(ps.len() as int) =~= Seq::<Seq<char>>::empty());
        assert(r@ + Seq::<char>::empty() =~= r@);
    }
    r
}

proof fn lemma_line_len(p: Seq<char>, rest: Seq<char>)
    requires
        has_no_newline(p),
    ensures
        line_len(p + seq!['\n'] + rest) == p.len(),
    decreases p.len(),
{
    let t = p + seq!['\n'] + rest;
    if p.len() > 0 {
        assert(t.drop_first() =~= p.drop_first() + seq!['\n'] + rest);
        lemma_line_len(p.drop_first(), rest);
    } else {
        assert(t[0] == '\n');
    }
}

/// A playlist written for a list of paths, read back line by line, gives the
/// same paths in the same order, provided that no path holds a newline.
pub proof fn lemma_playlist_round_trip(paths: Seq<Seq<char>>)
    requires
        forall|i: int| 0 <= i < paths.len() ==> has_no_newline(#[trigger] paths[i]),
    ensures
        parse_spec(playlist_spec(paths)) == Some(paths),
    decreases paths.len(),
{
    if paths.len() > 0 {
        let p = paths[0];
        let rest = playlist_spec(paths.drop_first());
        let t = playlist_spec(paths);
        let body = directive() + p + seq!['\''];
        assert(has_no_newline(body)) by {
            assert forall|i: int| 0 <= i < body.len() implies body[i] != '\n' by {
                if 6 <= i < 6 + p.len() {
                    assert(body[i] == p[i - 6]);
                }
            }
        }
        assert(t =~= body + seq!['\n'] + rest);
        lemma_line_len(body, rest);
        assert(t.take(body.len() as int) =~= body);
        assert(t.skip(body.len() + 1 as int) =~= rest);
        assert(body.take(6) =~= directive());
        assert(body.subrange(6, body.len() - 1) =~= p);
        assert forall|i: int| 0 <= i < paths.drop_first().len() implies has_no_newline(
            #[trigger] paths.drop_first()[i],
        ) by {
            assert(paths.drop_first()[i] == paths[i + 1]);
        }
        lemma_playlist_round_trip(paths.drop_first());
        assert(seq![p] + paths.drop_first() =~= paths);
    } else {
        assert(playlist_spec(paths) =~= Seq::<char>::empty());
    }
}


/// Whether the characters `a..b` of `t` have the form of a directive line.
fn is_directive(t: &str, a: usize, b: usize) -> (r: bool)
    requires
        a <= b <= t@.len(),
    ensures
        r == unquote(t@.subrange(a as int, b as int)) is Some,
{
    let ghost line = t@.subrange(a as int, b as int);
    if b - a < 7 {
        return false;
    }
    let ok = t.get_char(a) == 'f' && t.get_char(a + 1) == 'i' && t.get_char(a + 2) == 'l'
        && t.get_char(a + 3) == 'e' && t.get_char(a + 4) == ' ' && t.get_char(a + 5) == '\''
        && t.get_char(b - 1) == '\'';
    proof {
        if ok {
            assert(line.take(6) =~= directive());
        } else if line.take(6) == directive() {
            assert(line.take(6)[0] == line[0]);
            assert(line.take(6)[1] == line[1]);
            assert(line.take(6)[2] == line[2]);
            assert(line.take(6)[3] == line[3]);
            assert(line.take(6)[4] == line[4]);
            assert(line.take(6)[5] == line[5]);
        }
    }
    ok
}

/// Reads a playlist text back into its paths, line by line; none where a
/// line is not a `file '<path>'` directive.
pub fn parse_playlist(text: &str) -> (r: Option<Vec<String>>)
    ensures
        match parse_spec(text@) {
            Some(ps) => (r matches Some(v) && texts(v@) == ps),
            None => r is None,
        },
{
    let ghost t = text@;
    let n = text.unicode_len();
    let mut acc: Vec<String> = Vec::new();
    let mut pos: usize = 0;
    assert(t.skip(0) =~= t);
    assert(texts(acc@) =~= Seq::<Seq<char>>::empty());
    while pos < n
        invariant
            pos <= n,
            n == t.len(),
            t == text@,
            parse_spec(t) == (match parse_spec(t.skip(pos as int)) {
                None => None,
                Some(ps) => Some(texts(acc@) + ps),
            }),
        decreases n - pos,
    {
        let ghost u = t.skip(pos as int);
        let mut k: usize = pos;
        assert(t.skip(pos as int) =~= u);
        while k < n && text.get_char(k) != '\n'
            invariant
                pos <= k <= n,
                n == t.len(),
                t == text@,
                u == t.skip(pos as int),
                line_len(u) == (k - pos) + line_len(t.skip(k as int)),
            decreases n - k,
        {
            assert(t.skip(k as int).drop_first() =~= t.skip(k + 1));
            k = k + 1;
        }
        proof {
            if k == n {
                assert(t.skip(k as int).len() == 0);
            } else {
                assert(t.skip(k as int)[0] == '\n');
            }
            assert(u.take((k - pos) as int) =~= t.subrange(pos as int, k as int));
            if k < n {
                assert(u.skip((k - pos) + 1) =~= t.skip(k + 1));
            }
        }
        if !is_directive(text, pos, k) {
            return None;
        }
        let path = String::from_str(text.substring_char(pos + 6, k - 1));
        proof {
            assert(path@ =~= t.subrange(pos as int, k as int).subrange(6, (k - pos) - 1));
        }
        let ghost before = acc@;
        acc.push(path);
        assert(texts(acc@) =~= texts(before).push(path@));
        let ghost next = if k < n { (k + 1) as int } else { n as int };
        if k < n {
            pos = k + 1;
        } else {
            pos = n;
            assert(t.skip(n as int) =~= Seq::<char>::empty());
        }
        proof {
            match parse_spec(t.skip(pos as int)) {
                None => {},
                Some(ps) => {
                    assert(texts(before) + (seq![path@] + ps) =~= texts(acc@) + ps);
                },
            }
        }
    }
    assert(t.skip(n as int) =~= Seq::<char>::empty());
    assert(texts(acc@) + Seq::<Seq<char>>::empty() =~= texts(acc@));
    Some(acc)
}

} // verus!
