//! Character-level text helpers: the query tokenizer's split on the first
//! space, the newline codec of the persisted cache, decimal rendering for the
//! display labels, and the derivation of a session name from a path.

use vstd::prelude::*;

verus! {

/// Relies on `String::push`: appends the given character to the end of the
/// string.
pub assume_specification[ String::push ](s: &mut String, ch: char)
    ensures
        final(s)@ == old(s)@.push(ch),
;

/// Index of the first occurrence of `c` in `s`, if any.
pub fn find_char(s: &str, c: char) -> (r: Option<usize>)
    ensures
        match r {
            Some(i) => i < s@.len() && s@[i as int] == c && forall|j: int|
                0 <= j < i ==> s@[j] != c,
            None => !s@.contains(c),
        },
{
    let n = s.unicode_len();
    let mut i: usize = 0;
    while i < n
        invariant
            i <= n,
            n == s@.len(),
            forall|j: int| 0 <= j < i ==> s@[j] != c,
        decreases n - i,
    {
        if s.get_char(i) == c {
            return Some(i);
        }
        i += 1;
    }
    None
}

/// Whether `s` contains the character `c`.
pub fn contains_char(s: &str, c: char) -> (r: bool)
    ensures
        r == s@.contains(c),
{
    match find_char(s, c) {
        Some(i) => {
            proof {
                assert(s@[i as int] == c);
            }
            true
        },
        None => false,
    }
}

/// The index of the first occurrence of `c` in `s`, or `s.len()` when there
/// is none.
pub open spec fn first_index_of(s: Seq<char>, c: char) -> int
    decreases s.len(),
{
    if s.len() == 0 {
        0
    } else if s[0] == c {
        0
    } else {
        1 + first_index_of(s.drop_first(), c)
    }
}

/// `first_index_of` points at the first occurrence of `c`, and at `s.len()`
/// exactly when `s` has none.
pub proof fn lemma_first_index_of(s: Seq<char>, c: char)
    ensures
        0 <= first_index_of(s, c) <= s.len(),
        s.contains(c) ==> first_index_of(s, c) < s.len() && s[first_index_of(s, c)] == c,
        forall|j: int| 0 <= j < first_index_of(s, c) ==> s[j] != c,
        !s.contains(c) ==> first_index_of(s, c) == s.len(),
    decreases s.len(),
{
    if s.len() > 0 && s[0] != c {
        let rest = s.drop_first();
        lemma_first_index_of(rest, c);
        assert(forall|j: int| 0 <= j < rest.len() ==> #[trigger] rest[j] == s[j + 1]);
        if s.contains(c) {
            let w = choose|w: int| 0 <= w < s.len() && s[w] == c;
            assert(rest[w - 1] == c);
            assert(rest.contains(c));
        }
        if rest.contains(c) {
            let w = choose|w: int| 0 <= w < rest.len() && rest[w] == c;
            assert(s[w + 1] == c);
            assert(s.contains(c));
        }
        assert forall|j: int| 0 <= j < first_index_of(s, c) implies s[j] != c by {
            if j > 0 {
                assert(rest[j - 1] != c);
            }
        }
    }
}

/// The part of a query before its first space; all of it when it has none.
pub open spec fn query_head(s: Seq<char>) -> Seq<char> {
    if s.contains(' ') {
        s.subrange(0, first_index_of(s, ' '))
    } else {
        s
    }
}

/// The part of a query after its first space; empty when it has none.
pub open spec fn query_rest(s: Seq<char>) -> Seq<char> {
    if s.contains(' ') {
        s.subrange(first_index_of(s, ' ') + 1, s.len() as int)
    } else {
        Seq::<char>::empty()
    }
}

/// Split `s` at its first space: the part before it and the part after it.
/// Without a space the whole string is the head and the tail is empty.
pub fn split_first_space(s: &str) -> (r: (String, String))
    ensures
        r.0@ == query_head(s@),
        r.1@ == query_rest(s@),
{
    proof {
        lemma_first_index_of(s@, ' ');
    }
    let n = s.unicode_len();
    match find_char(s, ' ') {
        Some(i) => {
            proof {
                assert(s@[i as int] == ' ');
                assert(s@.contains(' '));
                let fi = first_index_of(s@, ' ');
                assert(fi <= i as int);
                assert(i as int <= fi);
            }
            let head = s.substring_char(0, i).to_owned();
            let rest = s.substring_char(i + 1, n).to_owned();
            (head, rest)
        },
        None => {
            let whole = s.substring_char(0, n).to_owned();
            proof {
                assert(whole@ =~= s@);
            }
            (whole, String::new())
        },
    }
}

/// The pieces of `s` between occurrences of `sep`, in order; an empty string
/// splits into one empty piece.
pub open spec fn split_on(s: Seq<char>, sep: char) -> Seq<Seq<char>>
    decreases s.len(),
{
    if s.len() == 0 {
        seq![Seq::<char>::empty()]
    } else if s.last() == sep {
        split_on(s.drop_last(), sep).push(Seq::<char>::empty())
    } else {
        let p = split_on(s.drop_last(), sep);
        p.update(p.len() - 1, p.last().push(s.last()))
    }
}

/// The elements of `items` joined with `sep` between them.
pub open spec fn join_with(items: Seq<Seq<char>>, sep: char) -> Seq<char>
    decreases items.len(),
{
    if items.len() == 0 {
        Seq::<char>::empty()
    } else if items.len() == 1 {
        items[0]
    } else {
        join_with(items.drop_last(), sep).push(sep) + items.last()
    }
}

/// `split_on` has at least one piece, and none of its pieces contains `sep`.
pub proof fn lemma_split_on_shape(s: Seq<char>, sep: char)
    ensures
        split_on(s, sep).len() >= 1,
        forall|k: int|
            0 <= k < split_on(s, sep).len() ==> !(#[trigger] split_on(s, sep)[k]).contains(sep),
    decreases s.len(),
{
    if s.len() == 0 {
        assert forall|k: int|
            0 <= k < split_on(s, sep).len() implies !(#[trigger] split_on(s, sep)[k]).contains(
            sep,
        ) by {
            assert(split_on(s, sep)[k] =~= Seq::<char>::empty());
        }
    } else {
        lemma_split_on_shape(s.drop_last(), sep);
        let p = split_on(s.drop_last(), sep);
        if s.last() == sep {
            assert forall|k: int|
                0 <= k < split_on(s, sep).len() implies !(#[trigger] split_on(s, sep)[k]).contains(
                sep,
            ) by {
                if k < p.len() {
                    assert(split_on(s, sep)[k] == p[k]);
                } else {
                    assert(split_on(s, sep)[k] =~= Seq::<char>::empty());
                }
            }
        } else {
            assert forall|k: int|
                0 <= k < split_on(s, sep).len() implies !(#[trigger] split_on(s, sep)[k]).contains(
                sep,
            ) by {
                if k < p.len() - 1 {
                    assert(split_on(s, sep)[k] == p[k]);
                } else {
                    let piece = p.last().push(s.last());
                    assert(split_on(s, sep)[k] == piece);
                    assert forall|m: int| 0 <= m < piece.len() implies piece[m] != sep by {
                        if m < piece.len() - 1 {
                            assert(p.last()[m] != sep);
                        }
                    }
                }
            }
        }
    }
}

/// Joining the pieces of a split restores the original text.
pub proof fn lemma_split_join_round_trip(s: Seq<char>, sep: char)
    ensures
        join_with(split_on(s, sep), sep) =~= s,
    decreases s.len(),
{
    if s.len() == 0 {
    } else {
        lemma_split_join_round_trip(s.drop_last(), sep);
        lemma_split_on_shape(s.drop_last(), sep);
        let p = split_on(s.drop_last(), sep);
        if s.last() == sep {
            assert(split_on(s, sep).drop_last() =~= p);
            assert(join_with(split_on(s, sep), sep) =~= join_with(p, sep).push(sep));
        } else {
            let q = split_on(s, sep);
            assert(q == p.update(p.len() - 1, p.last().push(s.last())));
            if p.len() == 1 {
                assert(join_with(q, sep) == q[0]);
                assert(q[0] =~= p[0].push(s.last()));
            } else {
                assert(q.drop_last() =~= p.drop_last());
                assert(q.last() == p.last().push(s.last()));
                assert(join_with(q, sep) =~= join_with(p.drop_last(), sep).push(sep)
                    + p.last().push(s.last()));
                assert(join_with(p, sep).push(s.last()) =~= (join_with(p.drop_last(), sep).push(
                    sep,
                ) + p.last()).push(s.last()));
            }
        }
    }
}

/// Split `s` on `sep` into owned pieces.
pub fn split_string(s: &str, sep: char) -> (r: Vec<String>)
    ensures
        r@.map_values(|p: String| p@) == split_on(s@, sep),
{
    let n = s.unicode_len();
    let mut out: Vec<String> = Vec::new();
    let mut buf = String::new();
    let mut i: usize = 0;
    while i < n
        invariant
            i <= n,
            n == s@.len(),
            out@.map_values(|p: String| p@).push(buf@) =~= split_on(s@.take(i as int), sep),
        decreases n - i,
    {
        let c = s.get_char(i);
        let ghost prefix = s@.take(i as int);
        let ghost prefix1 = s@.take(i as int + 1);
        proof {
            assert(prefix1.drop_last() =~= prefix);
            assert(prefix1.last() == c);
        }
        if c == sep {
            out.push(buf);
            buf = String::new();
            proof {
                assert(out@.map_values(|p: String| p@).drop_last() =~= out@.map_values(
                    |p: String| p@,
                ).drop_last());
                assert(out@.map_values(|p: String| p@).push(buf@) =~= split_on(prefix, sep).push(
                    Seq::<char>::empty(),
                ));
            }
        } else {
            buf.push(c);
            proof {
                let p = split_on(prefix, sep);
                lemma_split_on_shape(prefix, sep);
                assert(split_on(prefix1, sep) == p.update(p.len() - 1, p.last().push(c)));
                assert(out@.map_values(|p2: String| p2@).push(buf@) =~= p.update(
                    p.len() - 1,
                    p.last().push(c),
                ));
            }
        }
        i += 1;
    }
    proof {
        assert(s@.take(n as int) =~= s@);
    }
    out.push(buf);
    out
}

/// Join the pieces with `sep` between them.
pub fn join_strings(items: &Vec<String>, sep: char) -> (r: String)
    ensures
        r@ == join_with(items@.map_values(|p: String| p@), sep),
{
    let ghost views = items@.map_values(|p: String| p@);
    let mut out = String::new();
    let mut i: usize = 0;
    while i < items.len()
        invariant
            i <= items@.len(),
            views == items@.map_values(|p: String| p@),
            out@ == join_with(views.take(i as int), sep),
        decreases items@.len() - i,
    {
        if i > 0 {
            out.push(sep);
        }
        out.append(items[i].as_str());
        proof {
            let t1 = views.take(i as int + 1);
            assert(t1.drop_last() =~= views.take(i as int));
            assert(t1.last() == views[i as int]);
            if i == 0 {
                assert(join_with(t1, sep) == t1[0]);
                assert(out@ =~= views[0]);
            } else {
                assert(join_with(t1, sep) == join_with(views.take(i as int), sep).push(sep)
                    + views[i as int]);
            }
        }
        i += 1;
    }
    proof {
        assert(views.take(items@.len() as int) =~= views);
    }
    out
}

/// The decimal digit character for a value below ten.
pub open spec fn spec_digit(d: int) -> char {
    if d == 0 {
        '0'
    } else if d == 1 {
        '1'
    } else if d == 2 {
        '2'
    } else if d == 3 {
        '3'
    } else if d == 4 {
        '4'
    } else if d == 5 {
        '5'
    } else if d == 6 {
        '6'
    } else if d == 7 {
        '7'
    } else if d == 8 {
        '8'
    } else {
        '9'
    }
}

/// The decimal rendering of `n`, most significant digit first.
pub open spec fn spec_decimal(n: int) -> Seq<char>
    decreases n,
{
    if n < 10 {
        seq![spec_digit(n)]
    } else {
        spec_decimal(n / 10).push(spec_digit(n % 10))
    }
}

fn digit_char(d: usize) -> (c: char)
    requires
        d < 10,
    ensures
        c == spec_digit(d as int),
{
    match d {
        0 => '0',
        1 => '1',
        2 => '2',
        3 => '3',
        4 => '4',
        5 => '5',
        6 => '6',
        7 => '7',
        8 => '8',
        _ => '9',
    }
}

/// Append the decimal rendering of `n` to `out`.
pub fn push_decimal(out: &mut String, n: usize)
    ensures
        final(out)@ == old(out)@ + spec_decimal(n as int),
{
    let mut digits: Vec<char> = Vec::new();
    let mut m: usize = n;
    loop
        invariant_except_break
            spec_decimal(n as int) =~= spec_decimal(m as int) + digits@.reverse(),
        ensures
            spec_decimal(n as int) =~= digits@.reverse(),
        decreases m,
    {
        let ghost digits_old = digits@;
        let ghost m_old = m as int;
        digits.push(digit_char(m % 10));
        m = m / 10;
        proof {
            assert(digits@.reverse() =~= seq![spec_digit(m_old % 10)] + digits_old.reverse());
            if m_old >= 10 {
                assert(spec_decimal(m_old) == spec_decimal(m_old / 10).push(
                    spec_digit(m_old % 10),
                ));
                assert(spec_decimal(m as int) + digits@.reverse() =~= spec_decimal(m_old)
                    + digits_old.reverse());
            } else {
                assert(spec_decimal(m_old) =~= seq![spec_digit(m_old)]);
                assert(digits@.reverse() =~= spec_decimal(m_old) + digits_old.reverse());
            }
        }
        if m == 0 {
            break;
        }
    }
    let ghost start = out@;
    let mut j: usize = digits.len();
    while j > 0
        invariant
            j <= digits@.len(),
            spec_decimal(n as int) =~= digits@.reverse(),
            out@ =~= start + digits@.reverse().take(digits@.len() - j),
        decreases j,
    {
        j -= 1;
        out.push(digits[j]);
        proof {
            let len = digits@.len() as int;
            assert(digits@.reverse()[len - 1 - j] == digits@[j as int]);
            assert(digits@.reverse().take(len - j as int) =~= digits@.reverse().take(
                len - j - 1,
            ).push(digits@[j as int]));
        }
    }
    proof {
        assert(digits@.reverse().take(digits@.len() as int) =~= digits@.reverse());
    }
}

/// `s` without a single trailing slash, when it has one.
pub open spec fn spec_stripped(s: Seq<char>) -> Seq<char> {
    if s.len() > 0 && s.last() == '/' {
        s.drop_last()
    } else {
        s
    }
}

/// The characters of `s` after its last slash; all of `s` when it has none.
pub open spec fn spec_last_segment(s: Seq<char>) -> Seq<char>
    decreases s.len(),
{
    if s.len() == 0 {
        s
    } else if s.last() == '/' {
        Seq::<char>::empty()
    } else {
        spec_last_segment(s.drop_last()).push(s.last())
    }
}

/// Every dot of `s` replaced with an underscore.
pub open spec fn spec_underscored(s: Seq<char>) -> Seq<char> {
    s.map_values(
        |c: char|
            if c == '.' {
                '_'
            } else {
                c
            },
    )
}

/// The session name a path stands for: the last segment of the path without
/// its trailing slash, with dots replaced by underscores.
pub open spec fn spec_derived_name(path: Seq<char>) -> Seq<char> {
    spec_underscored(spec_last_segment(spec_stripped(path)))
}

proof fn lemma_last_segment_after(s: Seq<char>, i: int)
    requires
        0 <= i < s.len(),
        s[i] == '/',
        forall|j: int| i < j < s.len() ==> s[j] != '/',
    ensures
        spec_last_segment(s) =~= s.subrange(i + 1, s.len() as int),
    decreases s.len(),
{
    if i == s.len() - 1 {
    } else {
        lemma_last_segment_after(s.drop_last(), i);
        assert(s.drop_last().subrange(i + 1, s.len() - 1) =~= s.subrange(i + 1, s.len() - 1));
        assert(s.subrange(i + 1, s.len() as int) =~= s.subrange(i + 1, s.len() - 1).push(s.last()));
    }
}

proof fn lemma_last_segment_whole(s: Seq<char>)
    requires
        forall|j: int| 0 <= j < s.len() ==> s[j] != '/',
    ensures
        spec_last_segment(s) =~= s,
    decreases s.len(),
{
    if s.len() > 0 {
        lemma_last_segment_whole(s.drop_last());
    }
}

fn find_last_char(s: &str, c: char) -> (r: Option<usize>)
    ensures
        match r {
            Some(i) => i < s@.len() && s@[i as int] == c && forall|j: int|
                i < j < s@.len() ==> s@[j] != c,
            None => !s@.contains(c),
        },
{
    let n = s.unicode_len();
    let mut j: usize = n;
    while j > 0
        invariant
            j <= n,
            n == s@.len(),
            forall|k: int| j <= k < s@.len() ==> s@[k] != c,
        decreases j,
    {
        j -= 1;
        if s.get_char(j) == c {
            return Some(j);
        }
    }
    None
}

/// The working directory and session name a candidate path stands for: the
/// path without its trailing slash, and the name derived from its last
/// segment.
pub fn derive_path_and_name(path: &str) -> (r: (String, String))
    ensures
        r.0@ == spec_stripped(path@),
        r.1@ == spec_derived_name(path@),
{
    let n = path.unicode_len();
    let stripped = if n > 0 && path.get_char(n - 1) == '/' {
        path.substring_char(0, n - 1)
    } else {
        path.substring_char(0, n)
    };
    proof {
        if n > 0 && path@.last() == '/' {
            assert(stripped@ =~= spec_stripped(path@));
        } else {
            assert(stripped@ =~= path@);
        }
    }
    let m = stripped.unicode_len();
    let segment = match find_last_char(stripped, '/') {
        Some(i) => {
            proof {
                lemma_last_segment_after(stripped@, i as int);
            }
            stripped.substring_char(i + 1, m)
        },
        None => {
            proof {
                assert forall|j: int| 0 <= j < stripped@.len() implies stripped@[j] != '/' by {
                    if stripped@[j] == '/' {
                        assert(stripped@.contains('/'));
                    }
                }
                lemma_last_segment_whole(stripped@);
                assert(stripped@.subrange(0, stripped@.len() as int) =~= stripped@);
            }
            stripped.substring_char(0, m)
        },
    };
    let k = segment.unicode_len();
    let mut name = String::new();
    let mut i: usize = 0;
    while i < k
        invariant
            i <= k,
            k == segment@.len(),
            name@ =~= spec_underscored(segment@.take(i as int)),
        decreases k - i,
    {
        let c = segment.get_char(i);
        if c == '.' {
            name.push('_');
        } else {
            name.push(c);
        }
        proof {
            assert(spec_underscored(segment@.take(i + 1)) =~= spec_underscored(
                segment@.take(i as int),
            ).push(
                if segment@[i as int] == '.' {
                    '_'
                } else {
                    segment@[i as int]
                },
            ));
        }
        i += 1;
    }
    proof {
        assert(segment@.take(k as int) =~= segment@);
    }
    (stripped.to_owned(), name)
}

} // verus!
