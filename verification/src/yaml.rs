//! Line-oriented model of the YAML subset these queries work on: documents are
//! sequences of lines; a line's indentation, key and value describe block
//! mapping entries; an entry's block is the run of more-indented lines below
//! it.  Every executable extraction function is proved equal to the spec-level
//! model defined here.

use vstd::prelude::*;

verus! {

// ---------------------------------------------------------------------------
// Splitting a character sequence at a separator, and joining it back.
// ---------------------------------------------------------------------------

/// The pieces of `s` between occurrences of `sep`, in order.  Always at least
/// one piece; no piece contains `sep`; joining the pieces with `sep` gives `s`
/// back (the last two facts are `lemma_split_on_parts` and
/// `lemma_join_of_split`).
pub open spec fn split_on(s: Seq<char>, sep: char) -> Seq<Seq<char>>
    decreases s.len(),
{
    if s.len() == 0 {
        seq![Seq::<char>::empty()]
    } else if s[0] == sep {
        seq![Seq::<char>::empty()] + split_on(s.subrange(1, s.len() as int), sep)
    } else {
        let rest = split_on(s.subrange(1, s.len() as int), sep);
        seq![seq![s[0]] + rest[0]] + rest.subrange(1, rest.len() as int)
    }
}

/// The pieces interleaved with `sep`: the inverse of `split_on`.
pub open spec fn join_with(parts: Seq<Seq<char>>, sep: char) -> Seq<char>
    decreases parts.len(),
{
    if parts.len() == 0 {
        Seq::<char>::empty()
    } else if parts.len() == 1 {
        parts[0]
    } else {
        parts[0] + seq![sep] + join_with(parts.subrange(1, parts.len() as int), sep)
    }
}

pub proof fn lemma_split_on_parts(s: Seq<char>, sep: char)
    ensures
        split_on(s, sep).len() >= 1,
        forall|k: int, j: int|
            0 <= k < split_on(s, sep).len() && 0 <= j < split_on(s, sep)[k].len()
                ==> split_on(s, sep)[k][j] != sep,
    decreases s.len(),
{
    if s.len() == 0 {
    } else if s[0] == sep {
        lemma_split_on_parts(s.subrange(1, s.len() as int), sep);
    } else {
        lemma_split_on_parts(s.subrange(1, s.len() as int), sep);
    }
}

/// If the first `i` characters of `s` are not `sep`, the split of `s` starts
/// with the piece that ends at `i`.
pub proof fn lemma_split_at_first(s: Seq<char>, sep: char, i: int)
    requires
        0 <= i <= s.len(),
        forall|j: int| 0 <= j < i ==> s[j] != sep,
    ensures
        i == s.len() ==> split_on(s, sep) == seq![s],
        i < s.len() && s[i] == sep ==> split_on(s, sep) == seq![s.subrange(0, i)] + split_on(
            s.subrange(i + 1, s.len() as int),
            sep,
        ),
    decreases i,
{
    if i == 0 {
        if s.len() == 0 {
            assert(s =~= Seq::<char>::empty());
        } else if s[0] == sep {
            assert(s.subrange(0, 0) =~= Seq::<char>::empty());
        }
    } else {
        let s1 = s.subrange(1, s.len() as int);
        lemma_split_at_first(s1, sep, i - 1);
        let rest = split_on(s1, sep);
        if i == s.len() {
            assert(rest == seq![s1]);
            assert(seq![s[0]] + rest[0] =~= s);
            assert(rest.subrange(1, rest.len() as int) =~~= Seq::<Seq<char>>::empty());
            assert(split_on(s, sep) =~~= seq![s]);
        } else if s[i] == sep {
            assert(s1.subrange(0, i - 1) =~= s.subrange(1, i));
            assert(s1.subrange(i, s1.len() as int) =~= s.subrange(i + 1, s.len() as int));
            assert(rest == seq![s.subrange(1, i)] + split_on(
                s.subrange(i + 1, s.len() as int),
                sep,
            ));
            assert(seq![s[0]] + rest[0] =~= s.subrange(0, i));
            assert(rest.subrange(1, rest.len() as int) =~~= split_on(
                s.subrange(i + 1, s.len() as int),
                sep,
            ));
            assert(split_on(s, sep) =~~= seq![s.subrange(0, i)] + split_on(
                s.subrange(i + 1, s.len() as int),
                sep,
            ));
        }
    }
}

pub proof fn lemma_join_of_split(s: Seq<char>, sep: char)
    ensures
        join_with(split_on(s, sep), sep) == s,
    decreases s.len(),
{
    if s.len() == 0 {
    } else {
        let s1 = s.subrange(1, s.len() as int);
        lemma_join_of_split(s1, sep);
        let rest = split_on(s1, sep);
        lemma_split_on_parts(s1, sep);
        if s[0] == sep {
            let parts = seq![Seq::<char>::empty()] + rest;
            assert(parts.subrange(1, parts.len() as int) =~~= rest);
            assert(join_with(parts, sep) =~= s);
        } else {
            let parts = seq![seq![s[0]] + rest[0]] + rest.subrange(1, rest.len() as int);
            if rest.len() == 1 {
                assert(parts.len() == 1);
                assert(join_with(rest, sep) == rest[0]);
                assert(join_with(parts, sep) =~= s);
            } else {
                assert(parts.subrange(1, parts.len() as int) =~~= rest.subrange(
                    1,
                    rest.len() as int,
                ));
                assert(join_with(rest, sep) == rest[0] + seq![sep] + join_with(
                    rest.subrange(1, rest.len() as int),
                    sep,
                ));
                assert(parts[0] == seq![s[0]] + rest[0]);
                assert(join_with(parts, sep) == parts[0] + seq![sep] + join_with(
                    parts.subrange(1, parts.len() as int),
                    sep,
                ));
                assert((seq![s[0]] + rest[0]) + seq![sep] + join_with(
                    rest.subrange(1, rest.len() as int),
                    sep,
                ) =~= seq![s[0]] + (rest[0] + seq![sep] + join_with(
                    rest.subrange(1, rest.len() as int),
                    sep,
                )));
                assert(seq![s[0]] + s1 =~= s);
                assert(join_with(parts, sep) == s);
            }
        }
    }
}

/// Joining pieces that are free of the separator and splitting the result
/// recovers exactly the pieces.
pub proof fn lemma_split_of_join(parts: Seq<Seq<char>>, sep: char)
    requires
        parts.len() >= 1,
        forall|k: int, j: int|
            0 <= k < parts.len() && 0 <= j < parts[k].len() ==> parts[k][j] != sep,
    ensures
        split_on(join_with(parts, sep), sep) == parts,
    decreases parts.len(),
{
    let s = join_with(parts, sep);
    if parts.len() == 1 {
        lemma_split_at_first(s, sep, s.len() as int);
        assert(split_on(s, sep) =~~= parts);
    } else {
        let tail = parts.subrange(1, parts.len() as int);
        let p0 = parts[0];
        assert(s == p0 + seq![sep] + join_with(tail, sep));
        assert forall|k: int, j: int|
            0 <= k < tail.len() && 0 <= j < tail[k].len() implies tail[k][j] != sep by {
            assert(tail[k] == parts[k + 1]);
        }
        lemma_split_of_join(tail, sep);
        let i = p0.len() as int;
        assert(forall|j: int| 0 <= j < i ==> s[j] == p0[j] && s[j] != sep);
        assert(s[i] == sep);
        lemma_split_at_first(s, sep, i);
        assert(s.subrange(0, i) =~= p0);
        assert(s.subrange(i + 1, s.len() as int) =~= join_with(tail, sep));
        assert(split_on(s, sep) =~~= parts);
    }
}

/// The view of each string in `v`, in order.
pub open spec fn views_of(v: Seq<String>) -> Seq<Seq<char>> {
    v.map_values(|s: String| s@)
}

/// Splits `s` at every occurrence of `sep`.
pub fn split_str(s: &str, sep: char) -> (parts: Vec<String>)
    ensures
        views_of(parts@) == split_on(s@, sep),
        parts@.len() >= 1,
{
    let n = s.unicode_len();
    let mut parts: Vec<String> = Vec::new();
    let mut start: usize = 0;
    let mut i: usize = 0;
    proof {
        assert(s@.subrange(0, n as int) =~= s@);
    }
    while i < n
        invariant
            start <= i <= n,
            n == s@.len(),
            forall|j: int| start <= j < i ==> s@[j] != sep,
            split_on(s@, sep) == views_of(parts@) + split_on(
                s@.subrange(start as int, n as int),
                sep,
            ),
        decreases n - i,
    {
        if s.get_char(i) == sep {
            let piece = s.substring_char(start, i).to_owned();
            proof {
                let suffix = s@.subrange(start as int, n as int);
                lemma_split_at_first(suffix, sep, i - start);
                assert(suffix[i - start] == sep);
                assert(suffix.subrange(0, i - start) =~= s@.subrange(start as int, i as int));
                assert(suffix.subrange(i - start + 1, suffix.len() as int) =~= s@.subrange(
                    i as int + 1,
                    n as int,
                ));
                assert(views_of(parts@.push(piece)) =~~= views_of(parts@) + seq![piece@]);
                assert(views_of(parts@) + (seq![s@.subrange(start as int, i as int)] + split_on(
                    s@.subrange(i as int + 1, n as int),
                    sep,
                )) =~~= (views_of(parts@) + seq![s@.subrange(start as int, i as int)]) + split_on(
                    s@.subrange(i as int + 1, n as int),
                    sep,
                ));
            }
            parts.push(piece);
            start = i + 1;
        }
        i = i + 1;
    }
    let piece = s.substring_char(start, n).to_owned();
    proof {
        let suffix = s@.subrange(start as int, n as int);
        lemma_split_at_first(suffix, sep, suffix.len() as int);
        assert(views_of(parts@.push(piece)) =~~= views_of(parts@) + seq![suffix]);
    }
    parts.push(piece);
    parts
}

// ---------------------------------------------------------------------------
// Single lines: indentation, classification, key and value.
// ---------------------------------------------------------------------------

/// Number of leading spaces of `l`; also the index of its first non-space
/// character, or its length if it is all spaces.
pub open spec fn indent_of(l: Seq<char>) -> int
    decreases l.len(),
{
    if l.len() == 0 || l[0] != ' ' {
        0
    } else {
        1 + indent_of(l.subrange(1, l.len() as int))
    }
}

pub proof fn lemma_indent_of(l: Seq<char>)
    ensures
        0 <= indent_of(l) <= l.len(),
        forall|j: int| 0 <= j < indent_of(l) ==> l[j] == ' ',
        indent_of(l) < l.len() ==> l[indent_of(l)] != ' ',
    decreases l.len(),
{
    if l.len() != 0 && l[0] == ' ' {
        let l1 = l.subrange(1, l.len() as int);
        lemma_indent_of(l1);
        assert forall|j: int| 0 <= j < indent_of(l) implies l[j] == ' ' by {
            if j > 0 {
                assert(l1[j - 1] == ' ');
            }
        }
        if indent_of(l) < l.len() {
            assert(l1[indent_of(l) - 1] != ' ');
        }
    }
}

pub proof fn lemma_indent_unique(l: Seq<char>, i: int)
    requires
        0 <= i <= l.len(),
        forall|j: int| 0 <= j < i ==> l[j] == ' ',
        i < l.len() ==> l[i] != ' ',
    ensures
        indent_of(l) == i,
{
    lemma_indent_of(l);
    if indent_of(l) < i {
        assert(l[indent_of(l)] == ' ');
    }
    if i < indent_of(l) {
        assert(l[i] == ' ');
    }
}

/// Index of the first `':'` in `l`, or its length if there is none.
pub open spec fn colon_pos(l: Seq<char>) -> int
    decreases l.len(),
{
    if l.len() == 0 {
        0
    } else if l[0] == ':' {
        0
    } else {
        1 + colon_pos(l.subrange(1, l.len() as int))
    }
}

pub proof fn lemma_colon_pos(l: Seq<char>)
    ensures
        0 <= colon_pos(l) <= l.len(),
        forall|j: int| 0 <= j < colon_pos(l) ==> l[j] != ':',
        colon_pos(l) < l.len() ==> l[colon_pos(l)] == ':',
    decreases l.len(),
{
    if l.len() != 0 && l[0] != ':' {
        let l1 = l.subrange(1, l.len() as int);
        lemma_colon_pos(l1);
        assert forall|j: int| 0 <= j < colon_pos(l) implies l[j] != ':' by {
            if j > 0 {
                assert(l1[j - 1] != ':');
            }
        }
        if colon_pos(l) < l.len() {
            assert(l1[colon_pos(l) - 1] == ':');
        }
    }
}

pub proof fn lemma_colon_unique(l: Seq<char>, i: int)
    requires
        0 <= i <= l.len(),
        forall|j: int| 0 <= j < i ==> l[j] != ':',
        i < l.len() ==> l[i] == ':',
    ensures
        colon_pos(l) == i,
{
    lemma_colon_pos(l);
    if colon_pos(l) < i {
        assert(l[colon_pos(l)] != ':');
    }
    if i < colon_pos(l) {
        assert(l[i] != ':');
    }
}

/// A line of nothing but spaces (or nothing at all).
pub open spec fn is_blank(l: Seq<char>) -> bool {
    indent_of(l) == l.len()
}

/// A line whose first non-space character starts a comment.
pub open spec fn is_comment(l: Seq<char>) -> bool {
    !is_blank(l) && l[indent_of(l)] == '#'
}

/// A line that carries content: neither blank nor a comment.
pub open spec fn is_significant(l: Seq<char>) -> bool {
    !is_blank(l) && !is_comment(l)
}

/// A significant line of the form `key: ...` — a block mapping entry.
pub open spec fn is_entry(l: Seq<char>) -> bool {
    is_significant(l) && colon_pos(l) < l.len()
}

/// The key text of an entry line: between the indentation and the first colon.
pub open spec fn key_of(l: Seq<char>) -> Seq<char> {
    l.subrange(indent_of(l), colon_pos(l))
}

/// On an entry line the colon cannot come before the indentation ends.
pub proof fn lemma_entry_bounds(l: Seq<char>)
    requires
        is_entry(l),
    ensures
        indent_of(l) <= colon_pos(l) < l.len(),
{
    lemma_indent_of(l);
    lemma_colon_pos(l);
    if colon_pos(l) < indent_of(l) {
        assert(l[colon_pos(l)] == ' ');
    }
}

/// Everything after the first colon, spaces left in place.
pub open spec fn raw_value_of(l: Seq<char>) -> Seq<char> {
    l.subrange(colon_pos(l) + 1, l.len() as int)
}

/// `s` with its trailing spaces removed.
pub open spec fn trim_end(s: Seq<char>) -> Seq<char>
    decreases s.len(),
{
    if s.len() > 0 && s[s.len() - 1] == ' ' {
        trim_end(s.subrange(0, s.len() - 1))
    } else {
        s
    }
}

pub proof fn lemma_trim_end(s: Seq<char>, b: int)
    requires
        0 <= b <= s.len(),
        forall|j: int| b <= j < s.len() ==> s[j] == ' ',
        b > 0 ==> s[b - 1] != ' ',
    ensures
        trim_end(s) == s.subrange(0, b),
    decreases s.len(),
{
    if s.len() > 0 && s[s.len() - 1] == ' ' {
        let s1 = s.subrange(0, s.len() - 1);
        assert(b <= s1.len());
        lemma_trim_end(s1, b);
        assert(s1.subrange(0, b) =~= s.subrange(0, b));
    } else {
        assert(b == s.len());
        assert(s.subrange(0, b) =~= s);
    }
}

/// `s` with leading and trailing spaces removed.
pub open spec fn trim_spaces(s: Seq<char>) -> Seq<char> {
    trim_end(s.subrange(indent_of(s), s.len() as int))
}

/// The scalar value of an entry line: after the colon, trimmed of spaces.
pub open spec fn value_of(l: Seq<char>) -> Seq<char> {
    trim_spaces(raw_value_of(l))
}

/// `s` with every single or double quote character removed.
pub open spec fn strip_quotes(s: Seq<char>) -> Seq<char>
    decreases s.len(),
{
    if s.len() == 0 {
        Seq::<char>::empty()
    } else {
        let rest = strip_quotes(s.subrange(1, s.len() as int));
        if s[0] == '\'' || s[0] == '"' {
            rest
        } else {
            seq![s[0]] + rest
        }
    }
}

pub proof fn lemma_strip_quotes_snoc(s: Seq<char>, c: char)
    ensures
        strip_quotes(s.push(c)) == strip_quotes(s) + (if c == '\'' || c == '"' {
            Seq::<char>::empty()
        } else {
            seq![c]
        }),
    decreases s.len(),
{
    let tail: Seq<char> = if c == '\'' || c == '"' {
        Seq::<char>::empty()
    } else {
        seq![c]
    };
    if s.len() == 0 {
        let sc = s.push(c);
        assert(sc.len() == 1);
        assert(sc[0] == c);
        assert(sc.subrange(1, 1) =~= Seq::<char>::empty());
        assert(strip_quotes(sc.subrange(1, sc.len() as int)) == Seq::<char>::empty());
        if c == '\'' || c == '"' {
            assert(strip_quotes(sc) =~= strip_quotes(s) + tail);
        } else {
            assert(strip_quotes(sc) == seq![c] + Seq::<char>::empty());
            assert(strip_quotes(sc) =~= strip_quotes(s) + tail);
        }
    } else {
        let s1 = s.subrange(1, s.len() as int);
        lemma_strip_quotes_snoc(s1, c);
        assert(s.push(c).subrange(1, s.push(c).len() as int) =~= s1.push(c));
        assert(s.push(c)[0] == s[0]);
        if s[0] == '\'' || s[0] == '"' {
            assert(strip_quotes(s.push(c)) == strip_quotes(s1.push(c)));
        } else {
            assert(seq![s[0]] + (strip_quotes(s1) + tail) =~= (seq![s[0]] + strip_quotes(s1))
                + tail);
        }
    }
}

// ---------------------------------------------------------------------------
// Executable counterparts for single lines.
// ---------------------------------------------------------------------------

/// Equality of two string slices, by character content.
pub fn str_eq(a: &str, b: &str) -> (r: bool)
    ensures
        r == (a@ == b@),
{
    let sa: String = a.to_owned();
    let sb: String = b.to_owned();
    sa == sb
}

/// The number of leading spaces of `l`.
pub fn indent_len(l: &str) -> (i: usize)
    ensures
        i == indent_of(l@),
{
    let n = l.unicode_len();
    let mut i: usize = 0;
    while i < n && l.get_char(i) == ' '
        invariant
            0 <= i <= n,
            n == l@.len(),
            forall|j: int| 0 <= j < i ==> l@[j] == ' ',
        decreases n - i,
    {
        i = i + 1;
    }
    proof {
        lemma_indent_unique(l@, i as int);
    }
    i
}

/// The index of the first colon of `l`, or its length.
pub fn colon_index(l: &str) -> (i: usize)
    ensures
        i == colon_pos(l@),
{
    let n = l.unicode_len();
    let mut i: usize = 0;
    while i < n && l.get_char(i) != ':'
        invariant
            0 <= i <= n,
            n == l@.len(),
            forall|j: int| 0 <= j < i ==> l@[j] != ':',
        decreases n - i,
    {
        i = i + 1;
    }
    proof {
        lemma_colon_unique(l@, i as int);
    }
    i
}

/// Whether `l` is neither blank nor a comment.
pub fn line_is_significant(l: &str) -> (b: bool)
    ensures
        b == is_significant(l@),
{
    let n = l.unicode_len();
    let ind = indent_len(l);
    proof {
        lemma_indent_of(l@);
    }
    if ind >= n {
        false
    } else {
        l.get_char(ind) != '#'
    }
}

/// Whether `l` is a block mapping entry line.
pub fn line_is_entry(l: &str) -> (b: bool)
    ensures
        b == is_entry(l@),
{
    if !line_is_significant(l) {
        return false;
    }
    let n = l.unicode_len();
    colon_index(l) < n
}

/// The key of an entry line.
pub fn key_string(l: &str) -> (k: String)
    requires
        is_entry(l@),
    ensures
        k@ == key_of(l@),
{
    proof {
        lemma_entry_bounds(l@);
    }
    let ind = indent_len(l);
    let cp = colon_index(l);
    l.substring_char(ind, cp).to_owned()
}

/// The trimmed scalar value of an entry line.
pub fn value_string(l: &str) -> (v: String)
    requires
        is_entry(l@),
    ensures
        v@ == value_of(l@),
{
    proof {
        lemma_entry_bounds(l@);
    }
    let n = l.unicode_len();
    let cp = colon_index(l);
    let ghost raw = raw_value_of(l@);
    // skip leading spaces of the raw value
    let mut a: usize = cp + 1;
    while a < n && l.get_char(a) == ' '
        invariant
            cp + 1 <= a <= n,
            n == l@.len(),
            cp == colon_pos(l@),
            forall|j: int| cp + 1 <= j < a ==> l@[j] == ' ',
        decreases n - a,
    {
        a = a + 1;
    }
    // skip trailing spaces of the raw value
    let mut b: usize = n;
    while b > a && l.get_char(b - 1) == ' '
        invariant
            a <= b <= n,
            n == l@.len(),
            forall|j: int| b <= j < n ==> l@[j] == ' ',
        decreases b,
    {
        b = b - 1;
    }
    proof {
        assert(raw =~= l@.subrange(cp + 1, n as int));
        assert forall|j: int| 0 <= j < a - (cp + 1) implies raw[j] == ' ' by {
            assert(raw[j] == l@[cp + 1 + j]);
        }
        if a < n {
            assert(raw[a - (cp + 1)] == l@[a as int]);
            assert(raw[a - (cp + 1)] != ' ');
        }
        lemma_indent_unique(raw, a - (cp + 1));
        let stripped = raw.subrange(indent_of(raw), raw.len() as int);
        assert(stripped =~= l@.subrange(a as int, n as int));
        assert forall|j: int| b - a <= j < stripped.len() implies stripped[j] == ' ' by {
            assert(stripped[j] == l@[a + j]);
        }
        if b > a {
            assert(stripped[b - a - 1] == l@[b - 1]);
        }
        lemma_trim_end(stripped, b - a);
        assert(stripped.subrange(0, b - a) =~= l@.subrange(a as int, b as int));
    }
    l.substring_char(a, b).to_owned()
}

/// `s` with every quote character removed.
pub fn strip_quotes_string(s: &str) -> (r: String)
    ensures
        r@ == strip_quotes(s@),
{
    let n = s.unicode_len();
    let mut out = String::new();
    let mut i: usize = 0;
    proof {
        assert(s@.subrange(0, 0) =~= Seq::<char>::empty());
    }
    while i < n
        invariant
            0 <= i <= n,
            n == s@.len(),
            out@ == strip_quotes(s@.subrange(0, i as int)),
        decreases n - i,
    {
        let c = s.get_char(i);
        proof {
            assert(s@.subrange(0, i as int + 1) =~= s@.subrange(0, i as int).push(s@[i as int]));
            lemma_strip_quotes_snoc(s@.subrange(0, i as int), s@[i as int]);
        }
        if c != '\'' && c != '"' {
            let piece = s.substring_char(i, i + 1);
            proof {
                assert(piece@ =~= seq![s@[i as int]]);
            }
            out.append(piece);
        }
        i = i + 1;
    }
    proof {
        assert(s@.subrange(0, n as int) =~= s@);
    }
    out
}

// ---------------------------------------------------------------------------
// Documents as sequences of lines: blocks, entries and spans.
// ---------------------------------------------------------------------------

/// The lines of a document.
pub open spec fn lines_of(doc: Seq<char>) -> Seq<Seq<char>> {
    split_on(doc, '\n')
}

/// Index of the first significant line at or after `from`, or the line count.
pub open spec fn first_sig_at(ls: Seq<Seq<char>>, from: int) -> int
    decreases ls.len() - from,
{
    if from < 0 || from >= ls.len() {
        ls.len() as int
    } else if is_significant(ls[from]) {
        from
    } else {
        first_sig_at(ls, from + 1)
    }
}

/// Index of the first line at or after `from` that is significant and
/// indented no deeper than `ind` — the end of the block opened above `from`
/// at indentation `ind` — or the line count.
pub open spec fn block_end_from(ls: Seq<Seq<char>>, from: int, ind: int) -> int
    decreases ls.len() - from,
{
    if from < 0 || from >= ls.len() {
        ls.len() as int
    } else if is_significant(ls[from]) && indent_of(ls[from]) <= ind {
        from
    } else {
        block_end_from(ls, from + 1, ind)
    }
}

pub proof fn lemma_block_end_from(ls: Seq<Seq<char>>, from: int, ind: int)
    requires
        0 <= from <= ls.len(),
    ensures
        from <= block_end_from(ls, from, ind) <= ls.len(),
        forall|j: int|
            from <= j < block_end_from(ls, from, ind) ==> !(is_significant(ls[j]) && indent_of(
                ls[j],
            ) <= ind),
        block_end_from(ls, from, ind) < ls.len() ==> is_significant(
            ls[block_end_from(ls, from, ind)],
        ) && indent_of(ls[block_end_from(ls, from, ind)]) <= ind,
    decreases ls.len() - from,
{
    if from < ls.len() && !(is_significant(ls[from]) && indent_of(ls[from]) <= ind) {
        lemma_block_end_from(ls, from + 1, ind);
    }
}

/// One past the last significant line in `[k, hi)`; `k` itself counts.
pub open spec fn span_stop(ls: Seq<Seq<char>>, k: int, hi: int) -> int
    decreases hi - k,
{
    if hi <= k + 1 {
        k + 1
    } else if is_significant(ls[hi - 1]) {
        hi
    } else {
        span_stop(ls, k, hi - 1)
    }
}

pub proof fn lemma_span_stop(ls: Seq<Seq<char>>, k: int, hi: int)
    requires
        0 <= k < hi,
    ensures
        k + 1 <= span_stop(ls, k, hi) <= hi,
        forall|j: int| span_stop(ls, k, hi) <= j < hi ==> !is_significant(ls[j]),
        span_stop(ls, k, hi) > k + 1 ==> is_significant(ls[span_stop(ls, k, hi) - 1]),
    decreases hi - k,
{
    if hi > k + 1 && !is_significant(ls[hi - 1]) {
        lemma_span_stop(ls, k, hi - 1);
    }
}

/// The indices in `[lo, hi)` of entry lines indented exactly `ind`, in order.
pub open spec fn entry_indices(ls: Seq<Seq<char>>, lo: int, hi: int, ind: int) -> Seq<int>
    decreases hi - lo,
{
    if lo < 0 || lo >= hi || hi > ls.len() {
        Seq::<int>::empty()
    } else {
        let rest = entry_indices(ls, lo + 1, hi, ind);
        if is_entry(ls[lo]) && indent_of(ls[lo]) == ind {
            seq![lo] + rest
        } else {
            rest
        }
    }
}

pub proof fn lemma_entry_indices_snoc(ls: Seq<Seq<char>>, lo: int, hi: int, ind: int)
    requires
        0 <= lo <= hi < ls.len(),
    ensures
        entry_indices(ls, lo, hi + 1, ind) == entry_indices(ls, lo, hi, ind) + (if is_entry(
            ls[hi],
        ) && indent_of(ls[hi]) == ind {
            seq![hi]
        } else {
            Seq::<int>::empty()
        }),
    decreases hi - lo,
{
    let tail: Seq<int> = if is_entry(ls[hi]) && indent_of(ls[hi]) == ind {
        seq![hi]
    } else {
        Seq::<int>::empty()
    };
    if lo == hi {
        assert(entry_indices(ls, lo, hi, ind) == Seq::<int>::empty());
        assert(entry_indices(ls, lo + 1, hi + 1, ind) == Seq::<int>::empty());
        assert(entry_indices(ls, lo, hi + 1, ind) =~= Seq::<int>::empty() + tail);
    } else {
        lemma_entry_indices_snoc(ls, lo + 1, hi, ind);
        if is_entry(ls[lo]) && indent_of(ls[lo]) == ind {
            assert(seq![lo] + (entry_indices(ls, lo + 1, hi, ind) + tail) =~= (seq![lo]
                + entry_indices(ls, lo + 1, hi, ind)) + tail);
        }
    }
}

pub proof fn lemma_entry_indices_range(ls: Seq<Seq<char>>, lo: int, hi: int, ind: int)
    ensures
        forall|p: int|
            0 <= p < entry_indices(ls, lo, hi, ind).len() ==> {
                let k = #[trigger] entry_indices(ls, lo, hi, ind)[p];
                lo <= k < hi && is_entry(ls[k]) && indent_of(ls[k]) == ind
            },
    decreases hi - lo,
{
    if !(lo < 0 || lo >= hi || hi > ls.len()) {
        lemma_entry_indices_range(ls, lo + 1, hi, ind);
        let es = entry_indices(ls, lo, hi, ind);
        let rest = entry_indices(ls, lo + 1, hi, ind);
        assert forall|p: int| 0 <= p < es.len() implies {
            let k = #[trigger] es[p];
            lo <= k < hi && is_entry(ls[k]) && indent_of(ls[k]) == ind
        } by {
            if is_entry(ls[lo]) && indent_of(ls[lo]) == ind {
                if p > 0 {
                    assert(es[p] == rest[p - 1]);
                }
            } else {
                assert(es[p] == rest[p]);
            }
        }
    }
}

/// The lines of the span of the entry at line `k`, running to line `stop`
/// (exclusive): the entry line without its indentation, then the following
/// lines verbatim.
pub open spec fn span_lines(ls: Seq<Seq<char>>, k: int, stop: int) -> Seq<Seq<char>> {
    seq![ls[k].subrange(indent_of(ls[k]), ls[k].len() as int)] + ls.subrange(k + 1, stop)
}

/// The verbatim text of the entry at line `k`: from its key through the end
/// of the last significant line of its block.
pub open spec fn span_text_of(ls: Seq<Seq<char>>, k: int) -> Seq<char> {
    let stop = span_stop(ls, k, block_end_from(ls, k + 1, indent_of(ls[k])));
    join_with(span_lines(ls, k, stop), '\n')
}

/// What one block mapping entry contributes: its key, its scalar value
/// (empty when the value is a nested block), and its verbatim span.
pub struct EntryModel {
    pub key: Seq<char>,
    pub value: Seq<char>,
    pub span: Seq<char>,
}

pub open spec fn entry_model(ls: Seq<Seq<char>>, k: int) -> EntryModel {
    EntryModel { key: key_of(ls[k]), value: value_of(ls[k]), span: span_text_of(ls, k) }
}

pub open spec fn entries_at(ls: Seq<Seq<char>>, idxs: Seq<int>) -> Seq<EntryModel> {
    idxs.map_values(|k: int| entry_model(ls, k))
}

/// The indices of the immediate children of the entry at line `parent`:
/// the entry lines of its block at the indentation of the block's first
/// significant line.
pub open spec fn child_indices(ls: Seq<Seq<char>>, parent: int) -> Seq<int> {
    let p = indent_of(ls[parent]);
    let hi = block_end_from(ls, parent + 1, p);
    let fs = first_sig_at(ls, parent + 1);
    if fs >= hi {
        Seq::<int>::empty()
    } else {
        entry_indices(ls, parent + 1, hi, indent_of(ls[fs]))
    }
}

pub open spec fn child_entries(ls: Seq<Seq<char>>, parent: int) -> Seq<EntryModel> {
    entries_at(ls, child_indices(ls, parent))
}

/// The indices of a document's top-level entries: the entry lines at the
/// indentation of the document's first significant line.
pub open spec fn top_indices(ls: Seq<Seq<char>>) -> Seq<int> {
    let fs = first_sig_at(ls, 0);
    if fs >= ls.len() {
        Seq::<int>::empty()
    } else {
        entry_indices(ls, 0, ls.len() as int, indent_of(ls[fs]))
    }
}

/// A document's top-level entries, in order.
pub open spec fn top_entries_of(doc: Seq<char>) -> Seq<EntryModel> {
    entries_at(lines_of(doc), top_indices(lines_of(doc)))
}

/// Position of the first entry with the given key, or the entry count.
pub open spec fn find_entry_pos(es: Seq<EntryModel>, key: Seq<char>) -> int
    decreases es.len(),
{
    if es.len() == 0 {
        0
    } else if es[0].key == key {
        0
    } else {
        1 + find_entry_pos(es.subrange(1, es.len() as int), key)
    }
}

pub proof fn lemma_find_entry_pos(es: Seq<EntryModel>, key: Seq<char>)
    ensures
        0 <= find_entry_pos(es, key) <= es.len(),
        forall|j: int| 0 <= j < find_entry_pos(es, key) ==> es[j].key != key,
        find_entry_pos(es, key) < es.len() ==> es[find_entry_pos(es, key)].key == key,
    decreases es.len(),
{
    if es.len() != 0 && es[0].key != key {
        let e1 = es.subrange(1, es.len() as int);
        lemma_find_entry_pos(e1, key);
        assert forall|j: int| 0 <= j < find_entry_pos(es, key) implies es[j].key != key by {
            if j > 0 {
                assert(e1[j - 1].key != key);
            }
        }
        if find_entry_pos(es, key) < es.len() {
            assert(e1[find_entry_pos(es, key) - 1].key == key);
        }
    }
}

pub proof fn lemma_find_entry_pos_unique(es: Seq<EntryModel>, key: Seq<char>, i: int)
    requires
        0 <= i <= es.len(),
        forall|j: int| 0 <= j < i ==> es[j].key != key,
        i < es.len() ==> es[i].key == key,
    ensures
        find_entry_pos(es, key) == i,
{
    lemma_find_entry_pos(es, key);
    if find_entry_pos(es, key) < i {
        assert(es[find_entry_pos(es, key)].key != key);
    }
    if i < find_entry_pos(es, key) {
        assert(es[i].key != key);
    }
}

pub proof fn lemma_top_indices_range(ls: Seq<Seq<char>>)
    ensures
        forall|p: int|
            0 <= p < top_indices(ls).len() ==> {
                let k = #[trigger] top_indices(ls)[p];
                0 <= k < ls.len() && is_entry(ls[k])
            },
{
    let fs = first_sig_at(ls, 0);
    if fs < ls.len() {
        lemma_entry_indices_range(ls, 0, ls.len() as int, indent_of(ls[fs]));
    }
}

pub proof fn lemma_child_indices_range(ls: Seq<Seq<char>>, parent: int)
    requires
        0 <= parent < ls.len(),
    ensures
        forall|p: int|
            0 <= p < child_indices(ls, parent).len() ==> {
                let k = #[trigger] child_indices(ls, parent)[p];
                parent < k < ls.len() && is_entry(ls[k])
            },
{
    let p_ind = indent_of(ls[parent]);
    let hi = block_end_from(ls, parent + 1, p_ind);
    let fs = first_sig_at(ls, parent + 1);
    lemma_block_end_from(ls, parent + 1, p_ind);
    if fs < hi {
        lemma_entry_indices_range(ls, parent + 1, hi, indent_of(ls[fs]));
    }
}

/// Looking a key up among a document's children: either the children of the
/// matched entry, a reference the entry's content points at, or nothing.
pub enum LookupModel {
    Missing,
    Reference(Seq<char>),
    Children(Seq<EntryModel>),
}

/// The reference marker key.
pub open spec fn ref_marker() -> Seq<char> {
    "$ref"@
}

/// The `$ref` values of all entry lines at or after `i`, quotes stripped, in
/// document order: the flat discovery scan over a whole document.
pub open spec fn refs_in(ls: Seq<Seq<char>>, i: int) -> Seq<Seq<char>>
    decreases ls.len() - i,
{
    if i < 0 || i >= ls.len() {
        Seq::<Seq<char>>::empty()
    } else {
        let head: Seq<Seq<char>> = if is_entry(ls[i]) && key_of(ls[i]) == ref_marker() {
            seq![strip_quotes(value_of(ls[i]))]
        } else {
            Seq::<Seq<char>>::empty()
        };
        head + refs_in(ls, i + 1)
    }
}

/// The result of inspecting the children of the entry at line `parent`:
/// a `$ref` child collapses the whole result to a reference (its quoted
/// value, quotes stripped); otherwise the children stand as they are.
pub open spec fn child_lookup_model(ls: Seq<Seq<char>>, parent: int) -> LookupModel {
    let cs = child_entries(ls, parent);
    let r = find_entry_pos(cs, ref_marker());
    if r < cs.len() {
        LookupModel::Reference(strip_quotes(cs[r].value))
    } else {
        LookupModel::Children(cs)
    }
}

/// Looking up `key` among the top-level entries of `doc`: missing keys are an
/// error condition for the callers; a matched entry yields its children or
/// the reference they collapse to.
pub open spec fn lookup_model(doc: Seq<char>, key: Seq<char>) -> LookupModel {
    let ls = lines_of(doc);
    let tops = top_indices(ls);
    let es = entries_at(ls, tops);
    let j = find_entry_pos(es, key);
    if j == es.len() {
        LookupModel::Missing
    } else {
        child_lookup_model(ls, tops[j])
    }
}

pub proof fn lemma_join_with_snoc(parts: Seq<Seq<char>>, x: Seq<char>, sep: char)
    requires
        parts.len() >= 1,
    ensures
        join_with(parts.push(x), sep) == join_with(parts, sep) + seq![sep] + x,
    decreases parts.len(),
{
    if parts.len() == 1 {
        let px = parts.push(x);
        assert(px.len() == 2);
        assert(px.subrange(1, 2) =~~= seq![x]);
        assert(join_with(seq![x], sep) == x);
        assert(join_with(px, sep) == px[0] + seq![sep] + join_with(px.subrange(1, 2), sep));
    } else {
        let tail = parts.subrange(1, parts.len() as int);
        lemma_join_with_snoc(tail, x, sep);
        let px = parts.push(x);
        assert(px.subrange(1, px.len() as int) =~~= tail.push(x));
        assert(join_with(px, sep) == px[0] + seq![sep] + join_with(tail.push(x), sep));
        assert(parts[0] + seq![sep] + (join_with(tail, sep) + seq![sep] + x) =~= (parts[0]
            + seq![sep] + join_with(tail, sep)) + seq![sep] + x);
    }
}

// ---------------------------------------------------------------------------
// Executable counterparts for whole documents.
// ---------------------------------------------------------------------------

/// The lines of a document.
pub fn split_lines(doc: &str) -> (lines: Vec<String>)
    ensures
        views_of(lines@) == lines_of(doc@),
        lines@.len() >= 1,
{
    split_str(doc, '\n')
}

/// The first significant line at or after `from`, or the line count.
pub fn first_sig(lines: &Vec<String>, from: usize) -> (r: usize)
    requires
        from <= lines@.len(),
    ensures
        r == first_sig_at(views_of(lines@), from as int),
        from <= r <= lines@.len(),
{
    let ghost ls = views_of(lines@);
    let n = lines.len();
    let mut i = from;
    while i < n && !line_is_significant(lines[i].as_str())
        invariant
            from <= i <= n,
            n == lines@.len(),
            first_sig_at(ls, from as int) == first_sig_at(ls, i as int),
            ls == views_of(lines@),
        decreases n - i,
    {
        i = i + 1;
    }
    i
}

/// The end of the block opened above `from` at indentation `ind`.
pub fn block_end(lines: &Vec<String>, from: usize, ind: usize) -> (r: usize)
    requires
        from <= lines@.len(),
    ensures
        r == block_end_from(views_of(lines@), from as int, ind as int),
        from <= r <= lines@.len(),
{
    let ghost ls = views_of(lines@);
    let n = lines.len();
    let mut i = from;
    while i < n && !(line_is_significant(lines[i].as_str()) && indent_len(lines[i].as_str())
        <= ind)
        invariant
            from <= i <= n,
            n == lines@.len(),
            block_end_from(ls, from as int, ind as int) == block_end_from(ls, i as int, ind as int),
            ls == views_of(lines@),
        decreases n - i,
    {
        i = i + 1;
    }
    i
}

/// One past the last significant line in `[k, hi)`.
pub fn span_stop_at(lines: &Vec<String>, k: usize, hi: usize) -> (r: usize)
    requires
        k < hi <= lines@.len(),
    ensures
        r == span_stop(views_of(lines@), k as int, hi as int),
        k < r <= hi,
{
    let ghost ls = views_of(lines@);
    let mut i = hi;
    while i > k + 1 && !line_is_significant(lines[i - 1].as_str())
        invariant
            k + 1 <= i <= hi,
            hi <= lines@.len(),
            span_stop(ls, k as int, hi as int) == span_stop(ls, k as int, i as int),
            ls == views_of(lines@),
        decreases i,
    {
        i = i - 1;
    }
    i
}

/// The indices in `[lo, hi)` of entry lines indented exactly `ind`.
pub fn collect_entry_indices(lines: &Vec<String>, lo: usize, hi: usize, ind: usize) -> (r: Vec<
    usize,
>)
    requires
        lo <= hi <= lines@.len(),
    ensures
        r@.map_values(|u: usize| u as int) == entry_indices(
            views_of(lines@),
            lo as int,
            hi as int,
            ind as int,
        ),
{
    let ghost ls = views_of(lines@);
    let mut r: Vec<usize> = Vec::new();
    let mut i = lo;
    proof {
        assert(entry_indices(ls, lo as int, lo as int, ind as int) == Seq::<int>::empty());
        assert(r@.map_values(|u: usize| u as int) =~= Seq::<int>::empty());
    }
    while i < hi
        invariant
            lo <= i <= hi <= lines@.len(),
            r@.map_values(|u: usize| u as int) == entry_indices(ls, lo as int, i as int, ind as int),
            ls == views_of(lines@),
        decreases hi - i,
    {
        proof {
            lemma_entry_indices_snoc(ls, lo as int, i as int, ind as int);
        }
        if line_is_entry(lines[i].as_str()) && indent_len(lines[i].as_str()) == ind {
            let ghost old_r = r@;
            r.push(i);
            proof {
                assert(r@.map_values(|u: usize| u as int) =~= old_r.map_values(|u: usize| u as int)
                    + seq![i as int]);
            }
        } else {
            proof {
                assert(entry_indices(ls, lo as int, i as int + 1, ind as int) =~= entry_indices(
                    ls,
                    lo as int,
                    i as int,
                    ind as int,
                ));
            }
        }
        i = i + 1;
    }
    r
}

/// The verbatim span text of the entry at line `k`, running to line `stop`.
pub fn span_string(lines: &Vec<String>, k: usize, stop: usize) -> (s: String)
    requires
        k < stop <= lines@.len(),
    ensures
        s@ == join_with(span_lines(views_of(lines@), k as int, stop as int), '\n'),
{
    let ghost ls = views_of(lines@);
    let line = lines[k].as_str();
    let ind = indent_len(line);
    proof {
        lemma_indent_of(ls[k as int]);
    }
    let n = line.unicode_len();
    let mut out: String = line.substring_char(ind, n).to_owned();
    let mut i = k + 1;
    proof {
        assert(span_lines(ls, k as int, k as int + 1) =~~= seq![
            ls[k as int].subrange(indent_of(ls[k as int]), ls[k as int].len() as int),
        ]);
    }
    while i < stop
        invariant
            k + 1 <= i <= stop <= lines@.len(),
            out@ == join_with(span_lines(ls, k as int, i as int), '\n'),
            ls == views_of(lines@),
        decreases stop - i,
    {
        proof {
            reveal_strlit("\n");
            let prev = span_lines(ls, k as int, i as int);
            assert(prev.len() >= 1);
            lemma_join_with_snoc(prev, ls[i as int], '\n');
            assert(span_lines(ls, k as int, i as int + 1) =~~= prev.push(ls[i as int]));
            assert("\n"@ =~= seq!['\n']);
        }
        out.append("\n");
        out.append(lines[i].as_str());
        i = i + 1;
    }
    out
}

} // verus!
