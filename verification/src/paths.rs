//! Unix path texts: the last component of a path (`Path::file_name`), and
//! the stem and extension of a file name (`Path::file_stem`,
//! `Path::extension`).
use vstd::prelude::*;

use crate::text::{chars_of, chars_eq_ignore_ascii_case, eq_ignore_ascii_case, string_from_range};

verus! {

/// The position of the last `c` in `s`, or -1.
pub open spec fn last_index_of(s: Seq<char>, c: char) -> int
    decreases s.len(),
{
    if s.len() == 0 {
        -1
    } else if s.last() == c {
        s.len() - 1
    } else {
        last_index_of(s.drop_last(), c)
    }
}

proof fn lemma_last_index_of(s: Seq<char>, c: char)
    ensures
        -1 <= last_index_of(s, c) < s.len(),
        last_index_of(s, c) >= 0 ==> s[last_index_of(s, c)] == c,
        forall|j: int| last_index_of(s, c) < j < s.len() ==> s[j] != c,
    decreases s.len(),
{
    if s.len() > 0 && s.last() != c {
        lemma_last_index_of(s.drop_last(), c);
        assert forall|j: int| last_index_of(s, c) < j < s.len() implies s[j] != c by {
            if j < s.len() - 1 {
                assert(s[j] == s.drop_last()[j]);
            }
        }
    }
}

/// The position of the last `c` in `v`.
pub fn last_index(v: &Vec<char>, c: char) -> (r: Option<usize>)
    ensures
        match r {
            Some(i) => i as int == last_index_of(v@, c),
            None => last_index_of(v@, c) == -1,
        },
{
    let mut i = v.len();
    assert(v@.take(v@.len() as int) == v@);
    while i > 0
        invariant
            i <= v.len(),
            last_index_of(v@, c) == last_index_of(v@.take(i as int), c),
        decreases i,
    {
        assert(v@.take(i as int).drop_last() == v@.take(i - 1));
        if v[i - 1] == c {
            return Some(i - 1);
        }
        i -= 1;
    }
    None
}

/// Whether `p` is a position after which a path holds only separators and
/// `.` components.
pub open spec fn only_cur_dirs_after(s: Seq<char>, p: int) -> bool {
    forall|i: int|
        p <= i < s.len() ==> (#[trigger] s[i] == '/' || (s[i] == '.' && (i == 0 || s[i - 1] == '/')
            && (i + 1 == s.len() || s[i + 1] == '/')))
}

/// Whether `s[a..b]` is the last component of the path `s` that is neither
/// empty nor `.`.
pub open spec fn is_last_component(s: Seq<char>, a: int, b: int) -> bool {
    &&& 0 <= a < b <= s.len()
    &&& a == 0 || s[a - 1] == '/'
    &&& b == s.len() || s[b] == '/'
    &&& forall|i: int| a <= i < b ==> #[trigger] s[i] != '/'
    &&& s.subrange(a, b) != seq!['.']
    &&& only_cur_dirs_after(s, b)
}

/// What `Path::file_name` gives for the Unix path `s`.
pub open spec fn file_name_spec(s: Seq<char>, r: Option<Seq<char>>) -> bool {
    match r {
        Some(n) => n != seq!['.', '.'] && exists|a: int, b: int|
            is_last_component(s, a, b) && n == #[trigger] s.subrange(a, b),
        None => forall|a: int, b: int|
            is_last_component(s, a, b) ==> #[trigger] s.subrange(a, b) == seq!['.', '.'],
    }
}

/// Bounds of the last component of `v` that is neither empty nor `.`.
fn last_component(v: &Vec<char>) -> (r: Option<(usize, usize)>)
    ensures
        match r {
            Some((a, b)) => is_last_component(v@, a as int, b as int),
            None => forall|a: int, b: int| !is_last_component(v@, a, b),
        },
{
    let mut p = v.len();
    while p > 0
        invariant
            p <= v.len(),
            only_cur_dirs_after(v@, p as int),
        ensures
            p == 0,
            only_cur_dirs_after(v@, p as int),
        decreases p,
    {
        let ghost p0 = p;
        while p > 0 && v[p - 1] == '/'
            invariant
                p <= p0,
                p <= v.len(),
                only_cur_dirs_after(v@, p as int),
            decreases p,
        {
            p -= 1;
        }
        if p == 0 {
            break;
        }
        assert(p <= p0);
        let mut a = p - 1;
        while a > 0 && v[a - 1] != '/'
            invariant
                a < p <= v.len(),
                forall|i: int| a <= i < p ==> #[trigger] v@[i] != '/',
            decreases a,
        {
            a -= 1;
        }
        if p - a == 1 && v[a] == '.' {
            assert(p == v.len() || v@[p as int] == '/');
            p = a;
        } else {
            proof {
                assert(p == v.len() || v@[p as int] == '/');
                assert(a == 0 || v@[a - 1] == '/');
                assert(forall|i: int| a <= i < p ==> #[trigger] v@[i] != '/');
                assert(only_cur_dirs_after(v@, p as int));
                let sub = v@.subrange(a as int, p as int);
                if sub == seq!['.'] {
                    assert(seq!['.'].len() == 1);
                    assert(seq!['.'][0] == '.');
                    assert(sub.len() == 1);
                    assert(sub[0] == v@[a as int]);
                    assert(false);
                }
                assert(sub != seq!['.']);
            }
            return Some((a, p));
        }
    }
    proof {
        assert forall|a: int, b: int| !is_last_component(v@, a, b) by {
            if is_last_component(v@, a, b) {
                assert(v@[b - 1] != '/');
                assert(v@[b - 1] == '.' && (b - 1 == 0 || v@[b - 2] == '/'));
                if a < b - 1 {
                    assert(v@[b - 2] != '/');
                }
                assert(v@.subrange(a, b) =~= seq!['.']);
            }
        }
    }
    None
}

/// `Path::file_name` for a Unix path.
pub fn file_name(path: &str) -> (r: Option<String>)
    ensures
        file_name_spec(path@, match r {
            Some(n) => Some(n@),
            None => None,
        }),
{
    let v = chars_of(path);
    match last_component(&v) {
        Some((a, b)) => {
            let is_parent = b - a == 2 && v[a] == '.' && v[a + 1] == '.';
            proof {
                if v@.subrange(a as int, b as int) == seq!['.', '.'] {
                    assert(v@.subrange(a as int, b as int)[0] == '.');
                    assert(v@.subrange(a as int, b as int)[1] == '.');
                }
                if is_parent {
                    assert(v@.subrange(a as int, b as int) =~= seq!['.', '.']);
                }
            }
            if is_parent {
                proof {
                    assert forall|x: int, y: int| is_last_component(v@, x, y) implies #[trigger] v@.subrange(
                        x,
                        y,
                    ) == seq!['.', '.'] by {
                        lemma_last_component_unique(v@, x, y, a as int, b as int);
                    }
                }
                None
            } else {
                Some(string_from_range(&v, a, b))
            }
        },
        None => None,
    }
}

/// The last component of a path is unique.
proof fn lemma_last_component_unique(s: Seq<char>, a1: int, b1: int, a2: int, b2: int)
    requires
        is_last_component(s, a1, b1),
        is_last_component(s, a2, b2),
    ensures
        a1 == a2 && b1 == b2,
{
    if b1 < b2 {
        assert(s[b2 - 1] != '/');
        assert(s[b2 - 1] == '.');
        assert(b2 - 1 == 0 || s[b2 - 2] == '/');
        assert(a2 == b2 - 1);
        assert(s.subrange(a2, b2) =~= seq!['.']);
    } else if b2 < b1 {
        assert(s[b1 - 1] != '/');
        assert(s[b1 - 1] == '.');
        assert(a1 == b1 - 1);
        assert(s.subrange(a1, b1) =~= seq!['.']);
    } else {
        if a1 < a2 {
            assert(s[a2 - 1] == '/');
        } else if a2 < a1 {
            assert(s[a1 - 1] == '/');
        }
    }
}

/// What `Path::extension` gives for the file name `name`.
pub open spec fn extension_spec(name: Seq<char>) -> Option<Seq<char>> {
    let i = last_index_of(name, '.');
    if name == seq!['.', '.'] || i <= 0 {
        None
    } else {
        Some(name.subrange(i + 1, name.len() as int))
    }
}

/// What `Path::file_stem` gives for the file name `name`.
pub open spec fn file_stem_spec(name: Seq<char>) -> Seq<char> {
    let i = last_index_of(name, '.');
    if name == seq!['.', '.'] || i <= 0 {
        name
    } else {
        name.subrange(0, i)
    }
}

fn is_dot_dot(v: &Vec<char>) -> (r: bool)
    ensures
        r == (v@ == seq!['.', '.']),
{
    let r = v.len() == 2 && v[0] == '.' && v[1] == '.';
    proof {
        if v@ == seq!['.', '.'] {
            assert(v@[0] == '.' && v@[1] == '.');
        }
        if r {
            assert(v@ =~= seq!['.', '.']);
        }
    }
    r
}

/// `Path::extension` of a file name.
pub fn extension(name: &str) -> (r: Option<String>)
    ensures
        match r {
            Some(e) => extension_spec(name@) == Some(e@),
            None => extension_spec(name@) is None,
        },
{
    let v = chars_of(name);
    if is_dot_dot(&v) {
        return None;
    }
    proof {
        lemma_last_index_of(v@, '.');
    }
    match last_index(&v, '.') {
        Some(i) if i > 0 => Some(string_from_range(&v, i + 1, v.len())),
        _ => None,
    }
}

/// `Path::file_stem` of a file name.
pub fn file_stem(name: &str) -> (r: String)
    ensures
        r@ == file_stem_spec(name@),
{
    let v = chars_of(name);
    if is_dot_dot(&v) {
        return string_from_range(&v, 0, v.len());
    }
    proof {
        lemma_last_index_of(v@, '.');
        assert(v@.subrange(0, v@.len() as int) == v@);
    }
    match last_index(&v, '.') {
        Some(i) if i > 0 => string_from_range(&v, 0, i),
        _ => string_from_range(&v, 0, v.len()),
    }
}

/// Whether a path names a CSV file: its extension is `csv` in any ASCII case.
pub open spec fn is_csv_path(path: Seq<char>, name: Option<Seq<char>>) -> bool {
    file_name_spec(path, name) && match name {
        Some(n) => match extension_spec(n) {
            Some(ext) => eq_ignore_ascii_case(ext, "csv"@),
            None => false,
        },
        None => false,
    }
}

/// Whether `path` names a CSV file (by its extension, in any ASCII case).
pub fn is_csv_file_path(path: &str) -> (r: bool)
    ensures
        r <==> exists|name: Option<Seq<char>>| is_csv_path(path@, name),
{
    let name = file_name(path);
    let ghost nv = match &name {
        Some(n) => Some(n@),
        None => None,
    };
    let r = match &name {
        Some(n) => match extension(n.as_str()) {
            Some(ext) => chars_eq_ignore_ascii_case(&chars_of(ext.as_str()), &chars_of("csv")),
            None => false,
        },
        None => false,
    };
    proof {
        assert(is_csv_path(path@, nv) == r);
        if !r {
            assert forall|other: Option<Seq<char>>| !is_csv_path(path@, other) by {
                if is_csv_path(path@, other) {
                    lemma_file_name_unique(path@, nv, other);
                }
            }
        }
    }
    r
}

/// `Path::file_name` has one answer.
pub proof fn lemma_file_name_unique(s: Seq<char>, r1: Option<Seq<char>>, r2: Option<Seq<char>>)
    requires
        file_name_spec(s, r1),
        file_name_spec(s, r2),
    ensures
        r1 == r2,
{
    match (r1, r2) {
        (Some(n1), Some(n2)) => {
            let (a1, b1) = choose|a: int, b: int| is_last_component(s, a, b) && n1 == s.subrange(a, b);
            let (a2, b2) = choose|a: int, b: int| is_last_component(s, a, b) && n2 == s.subrange(a, b);
            lemma_last_component_unique(s, a1, b1, a2, b2);
        },
        (Some(n1), None) => {
            let (a1, b1) = choose|a: int, b: int| is_last_component(s, a, b) && n1 == s.subrange(a, b);
            assert(s.subrange(a1, b1) == seq!['.', '.']);
        },
        (None, Some(n2)) => {
            let (a2, b2) = choose|a: int, b: int| is_last_component(s, a, b) && n2 == s.subrange(a, b);
            assert(s.subrange(a2, b2) == seq!['.', '.']);
        },
        (None, None) => {},
    }
}

/// The text after the last `_` of a stem (`rsplit_once('_')`), if any.
pub open spec fn after_last_underscore(stem: Seq<char>) -> Option<Seq<char>> {
    let i = last_index_of(stem, '_');
    if i < 0 {
        None
    } else {
        Some(stem.subrange(i + 1, stem.len() as int))
    }
}

/// The session id encoded in a Pi session file name
/// (`<timestamp>_<id>.jsonl`): the text after the last `_` of the file stem.
pub fn pi_id_from_filename(path: &str) -> (r: Option<String>)
    ensures
        match r {
            Some(id) => exists|n: Seq<char>|
                file_name_spec(path@, Some(n)) && after_last_underscore(file_stem_spec(n)) == Some(
                    id@,
                ),
            None => file_name_spec(path@, None) || exists|n: Seq<char>|
                file_name_spec(path@, Some(n)) && after_last_underscore(file_stem_spec(n)) is None,
        },
{
    match file_name(path) {
        Some(name) => {
            let stem = file_stem(name.as_str());
            let v = chars_of(stem.as_str());
            proof {
                lemma_last_index_of(v@, '_');
            }
            match last_index(&v, '_') {
                Some(i) => Some(string_from_range(&v, i + 1, v.len())),
                None => None,
            }
        },
        None => None,
    }
}

} // verus!
