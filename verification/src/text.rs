//! Characters, small string builders, and decimal formatting/parsing shared by
//! all three stages of the toolchain.

use vstd::prelude::*;

verus! {

/// The whitespace characters the toolchain recognizes: the ASCII blanks.
pub open spec fn is_space_char(c: char) -> bool {
    c == ' ' || c == '\t' || c == '\n' || c == '\r' || c == '\u{b}' || c == '\u{c}'
}

pub fn is_space(c: char) -> (r: bool)
    ensures
        r == is_space_char(c),
{
    c == ' ' || c == '\t' || c == '\n' || c == '\r' || c == '\u{b}' || c == '\u{c}'
}

/// Relies on str::chars: it yields exactly the string's characters, in order.
#[verifier::external_body]
pub fn str_to_chars(s: &str) -> (r: Vec<char>)
    ensures
        r@ == s@,
{
    s.chars().collect()
}

/// Relies on String's FromIterator over char: collecting yields the string of
/// exactly the given characters, in order.
#[verifier::external_body]
pub fn chars_to_string(v: &Vec<char>) -> (r: String)
    ensures
        r@ == v@,
{
    v.iter().collect()
}

/// An owned copy of a string slice, usually a literal.
pub fn lit(s: &str) -> (r: String)
    ensures
        r@ == s@,
{
    s.to_owned()
}

/// The decimal digit character for a value below ten.
pub open spec fn digit_char(d: nat) -> char {
    if d == 0 {
        '0'
    } else if d == 1 {
        '1'
    } else if d == 2 {
        '2'
    } else if d == 3 {
        '3'
    } else if d == 4 {
        '4'
    } else if d == 5 {
        '5'
    } else if d == 6 {
        '6'
    } else if d == 7 {
        '7'
    } else if d == 8 {
        '8'
    } else {
        '9'
    }
}

/// The decimal representation of a number, without sign or leading zeros.
pub open spec fn dec_rep(n: nat) -> Seq<char>
    decreases n,
{
    if n < 10 {
        seq![digit_char(n)]
    } else {
        dec_rep(n / 10).push(digit_char(n % 10))
    }
}

fn digit_of(d: u64) -> (r: char)
    requires
        d < 10,
    ensures
        r == digit_char(d as nat),
{
    if d == 0 {
        '0'
    } else if d == 1 {
        '1'
    } else if d == 2 {
        '2'
    } else if d == 3 {
        '3'
    } else if d == 4 {
        '4'
    } else if d == 5 {
        '5'
    } else if d == 6 {
        '6'
    } else if d == 7 {
        '7'
    } else if d == 8 {
        '8'
    } else {
        '9'
    }
}

pub fn u64_to_chars(n: u64) -> (r: Vec<char>)
    ensures
        r@ == dec_rep(n as nat),
    decreases n,
{
    if n < 10 {
        let mut v: Vec<char> = Vec::new();
        v.push(digit_of(n));
        assert(v@ =~= seq![digit_char(n as nat)]);
        v
    } else {
        let mut v = u64_to_chars(n / 10);
        v.push(digit_of(n % 10));
        v
    }
}

/// The decimal text of a number.
pub fn u64_to_string(n: u64) -> (r: String)
    ensures
        r@ == dec_rep(n as nat),
{
    chars_to_string(&u64_to_chars(n))
}

pub fn u16_to_string(n: u16) -> (r: String)
    ensures
        r@ == dec_rep(n as nat),
{
    u64_to_string(n as u64)
}

/// Whether a character is a decimal digit.
pub open spec fn is_dec_digit(c: char) -> bool {
    48 <= c as u32 <= 57
}

/// The numeric value of a decimal digit character.
pub open spec fn digit_val(c: char) -> nat {
    (c as u32 - 48) as nat
}

pub fn dec_digit_val(c: char) -> (r: Option<u8>)
    ensures
        match r {
            Some(d) => is_dec_digit(c) && d as nat == digit_val(c),
            None => !is_dec_digit(c),
        },
{
    let u = c as u32;
    if 48 <= u && u <= 57 {
        Some((u - 48) as u8)
    } else {
        None
    }
}

/// Whether every character of a sequence is a decimal digit.
pub open spec fn all_dec_digits(s: Seq<char>) -> bool {
    forall|i: int| 0 <= i < s.len() ==> is_dec_digit(#[trigger] s[i])
}

/// The value of a sequence of decimal digit characters.
pub open spec fn dec_val(s: Seq<char>) -> nat
    decreases s.len(),
{
    if s.len() == 0 {
        0
    } else {
        dec_val(s.drop_last()) * 10 + digit_val(s.last())
    }
}

/// Whether two character vectors hold the same characters.
pub fn eq_chars(a: &Vec<char>, b: &Vec<char>) -> (r: bool)
    ensures
        r == (a@ == b@),
{
    if a.len() != b.len() {
        assert(a@ != b@);
        return false;
    }
    let mut i: usize = 0;
    while i < a.len()
        invariant
            0 <= i <= a.len(),
            a@.len() == b@.len(),
            forall|k: int| 0 <= k < i ==> a@[k] == b@[k],
        decreases a.len() - i,
    {
        if a[i] != b[i] {
            return false;
        }
        i += 1;
    }
    assert(a@ =~= b@);
    true
}

/// Whether two string slices hold the same characters.
pub fn str_eq(a: &str, b: &str) -> (r: bool)
    ensures
        r == (a@ == b@),
{
    let va = str_to_chars(a);
    let vb = str_to_chars(b);
    eq_chars(&va, &vb)
}

/// Whether a character vector holds exactly the characters of a string slice.
pub fn chars_eq_str(a: &Vec<char>, s: &str) -> (r: bool)
    ensures
        r == (a@ == s@),
{
    let b = str_to_chars(s);
    eq_chars(a, &b)
}

/// A sequence with its leading whitespace removed.
pub open spec fn trim_start_rec(s: Seq<char>) -> Seq<char>
    decreases s.len(),
{
    if s.len() == 0 {
        s
    } else if is_space_char(s[0]) {
        trim_start_rec(s.drop_first())
    } else {
        s
    }
}

/// A sequence with its trailing whitespace removed.
pub open spec fn trim_end_rec(s: Seq<char>) -> Seq<char>
    decreases s.len(),
{
    if s.len() == 0 {
        s
    } else if is_space_char(s.last()) {
        trim_end_rec(s.drop_last())
    } else {
        s
    }
}

/// A sequence with leading and trailing whitespace removed.
pub open spec fn spec_trim(s: Seq<char>) -> Seq<char> {
    trim_end_rec(trim_start_rec(s))
}

/// A copy of the characters from `from` (inclusive) to `to` (exclusive).
pub fn subrange_chars(v: &Vec<char>, from: usize, to: usize) -> (r: Vec<char>)
    requires
        from <= to <= v@.len(),
    ensures
        r@ == v@.subrange(from as int, to as int),
{
    let mut r: Vec<char> = Vec::new();
    let mut j: usize = from;
    while j < to
        invariant
            from <= j <= to <= v@.len(),
            r@ == v@.subrange(from as int, j as int),
        decreases to - j,
    {
        r.push(v[j]);
        assert(r@ =~= v@.subrange(from as int, j + 1 as int));
        j += 1;
    }
    r
}

fn trim_start_chars(v: &Vec<char>) -> (r: Vec<char>)
    ensures
        r@ == trim_start_rec(v@),
{
    let mut i: usize = 0;
    assert(v@.skip(0) =~= v@);
    while i < v.len() && is_space(v[i])
        invariant
            0 <= i <= v@.len(),
            trim_start_rec(v@) == trim_start_rec(v@.skip(i as int)),
        decreases v@.len() - i,
    {
        assert(v@.skip(i as int).drop_first() =~= v@.skip(i + 1 as int));
        assert(v@.skip(i as int)[0] == v@[i as int]);
        i += 1;
    }
    assert(v@.skip(i as int).len() > 0 ==> v@.skip(i as int)[0] == v@[i as int]);
    assert(trim_start_rec(v@.skip(i as int)) == v@.skip(i as int));
    let r = subrange_chars(v, i, v.len());
    assert(r@ =~= v@.skip(i as int));
    r
}

fn trim_end_chars(v: Vec<char>) -> (r: Vec<char>)
    ensures
        r@ == trim_end_rec(v@),
{
    let mut v = v;
    let ghost orig = v@;
    while v.len() > 0 && is_space(v[v.len() - 1])
        invariant
            trim_end_rec(orig) == trim_end_rec(v@),
        decreases v@.len(),
    {
        assert(v@.drop_last() =~= v@.subrange(0, v@.len() - 1));
        let _ = v.pop();
    }
    v
}

/// A copy of the characters with leading and trailing whitespace removed.
pub fn trim_chars(v: &Vec<char>) -> (r: Vec<char>)
    ensures
        r@ == spec_trim(v@),
{
    trim_end_chars(trim_start_chars(v))
}

proof fn lemma_trim_start_first(s: Seq<char>)
    ensures
        trim_start_rec(s).len() > 0 ==> !is_space_char(trim_start_rec(s)[0]),
    decreases s.len(),
{
    if s.len() > 0 && is_space_char(s[0]) {
        lemma_trim_start_first(s.drop_first());
    }
}

proof fn lemma_trim_end_last(s: Seq<char>)
    ensures
        trim_end_rec(s).len() > 0 ==> !is_space_char(trim_end_rec(s).last()),
    decreases s.len(),
{
    if s.len() > 0 && is_space_char(s.last()) {
        lemma_trim_end_last(s.drop_last());
    }
}

proof fn lemma_trim_end_first(s: Seq<char>)
    ensures
        trim_end_rec(s).len() > 0 ==> trim_end_rec(s)[0] == s[0],
    decreases s.len(),
{
    if s.len() > 0 && is_space_char(s.last()) {
        lemma_trim_end_first(s.drop_last());
    }
}

/// A trimmed text is empty or blank-free at both ends.
pub proof fn lemma_trim_props(s: Seq<char>)
    ensures
        spec_trim(s).len() > 0 ==> !is_space_char(spec_trim(s)[0]),
        spec_trim(s).len() > 0 ==> !is_space_char(spec_trim(s).last()),
{
    lemma_trim_start_first(s);
    let t = trim_start_rec(s);
    lemma_trim_end_last(t);
    lemma_trim_end_first(t);
}

/// Trimming twice is trimming once.
pub proof fn lemma_trim_idempotent(s: Seq<char>)
    ensures
        spec_trim(spec_trim(s)) == spec_trim(s),
{
    lemma_trim_props(s);
    let t = spec_trim(s);
    if t.len() == 0 {
        assert(trim_start_rec(t) == t);
        assert(trim_end_rec(t) == t);
    } else {
        assert(trim_start_rec(t) == t);
        assert(trim_end_rec(t) == t);
    }
}

/// A single character as a string.
pub fn char_to_string(c: char) -> (r: String)
    ensures
        r@ == seq![c],
{
    let mut v: Vec<char> = Vec::new();
    v.push(c);
    assert(v@ =~= seq![c]);
    chars_to_string(&v)
}

/// A sequence with its whitespace characters removed.
pub open spec fn remove_ws(s: Seq<char>) -> Seq<char>
    decreases s.len(),
{
    if s.len() == 0 {
        s
    } else {
        remove_ws(s.drop_last()) + (if is_space_char(s.last()) {
            Seq::<char>::empty()
        } else {
            seq![s.last()]
        })
    }
}

/// A copy of the characters with all whitespace removed.
pub fn remove_spaces(v: &Vec<char>) -> (r: Vec<char>)
    ensures
        r@ == remove_ws(v@),
{
    let mut r: Vec<char> = Vec::new();
    let mut i: usize = 0;
    assert(v@.take(0) =~= Seq::<char>::empty());
    while i < v.len()
        invariant
            0 <= i <= v@.len(),
            r@ == remove_ws(v@.take(i as int)),
        decreases v@.len() - i,
    {
        assert(v@.take(i + 1 as int).drop_last() =~= v@.take(i as int));
        assert(v@.take(i + 1 as int).last() == v@[i as int]);
        if !is_space(v[i]) {
            r.push(v[i]);
        }
        assert(r@ =~= remove_ws(v@.take(i + 1 as int)));
        i += 1;
    }
    assert(v@.take(v@.len() as int) =~= v@);
    r
}

/// The index of the first occurrence of a character, or -1 if absent.
pub open spec fn find_char(s: Seq<char>, c: char) -> int
    decreases s.len(),
{
    if s.len() == 0 {
        -1
    } else if s[0] == c {
        0
    } else {
        let r = find_char(s.drop_first(), c);
        if r < 0 {
            -1
        } else {
            1 + r
        }
    }
}

/// The first position of `c` in the characters, if any.
pub fn find_in_chars(v: &Vec<char>, c: char) -> (r: Option<usize>)
    ensures
        match r {
            Some(i) => find_char(v@, c) == i as int && i < v@.len(),
            None => find_char(v@, c) == -1,
        },
{
    let mut i: usize = 0;
    assert(v@.skip(0) =~= v@);
    while i < v.len()
        invariant
            0 <= i <= v@.len(),
            find_char(v@, c) == (if find_char(v@.skip(i as int), c) < 0 {
                -1int
            } else {
                i + find_char(v@.skip(i as int), c)
            }),
        decreases v@.len() - i,
    {
        assert(v@.skip(i as int)[0] == v@[i as int]);
        if v[i] == c {
            return Some(i);
        }
        assert(v@.skip(i as int).drop_first() =~= v@.skip(i + 1 as int));
        i += 1;
    }
    None
}

/// The index of the first whitespace character, or -1 if there is none.
pub open spec fn find_space(s: Seq<char>) -> int
    decreases s.len(),
{
    if s.len() == 0 {
        -1
    } else if is_space_char(s[0]) {
        0
    } else {
        let r = find_space(s.drop_first());
        if r < 0 {
            -1
        } else {
            1 + r
        }
    }
}

/// The first position of a whitespace character, if any.
pub fn find_space_in(v: &Vec<char>) -> (r: Option<usize>)
    ensures
        match r {
            Some(i) => find_space(v@) == i as int && i < v@.len(),
            None => find_space(v@) == -1,
        },
{
    let mut i: usize = 0;
    assert(v@.skip(0) =~= v@);
    while i < v.len()
        invariant
            0 <= i <= v@.len(),
            find_space(v@) == (if find_space(v@.skip(i as int)) < 0 {
                -1int
            } else {
                i + find_space(v@.skip(i as int))
            }),
        decreases v@.len() - i,
    {
        assert(v@.skip(i as int)[0] == v@[i as int]);
        if is_space(v[i]) {
            return Some(i);
        }
        assert(v@.skip(i as int).drop_first() =~= v@.skip(i + 1 as int));
        i += 1;
    }
    None
}

/// The first-blank position is -1 or within the text.
pub proof fn lemma_find_space_bound(s: Seq<char>)
    ensures
        -1 <= find_space(s) < s.len(),
        s.len() == 0 ==> find_space(s) == -1,
        find_space(s) >= 0 ==> is_space_char(s[find_space(s)]),
        find_space(s) >= 0 ==> forall|k: int| 0 <= k < find_space(s) ==> !is_space_char(s[k]),
        find_space(s) == -1 ==> forall|k: int| 0 <= k < s.len() ==> !is_space_char(#[trigger] s[k]),
    decreases s.len(),
{
    if s.len() > 0 && !is_space_char(s[0]) {
        lemma_find_space_bound(s.drop_first());
        assert(forall|k: int| 1 <= k < s.len() ==> s[k] == s.drop_first()[k - 1]);
    }
}

/// Trimming at the start never lengthens a text.
pub proof fn lemma_trim_start_len(s: Seq<char>)
    ensures
        trim_start_rec(s).len() <= s.len(),
    decreases s.len(),
{
    if s.len() > 0 && is_space_char(s[0]) {
        lemma_trim_start_len(s.drop_first());
    }
}

/// A trimmed-at-the-start text is empty or starts with a non-blank.
pub proof fn lemma_trim_start_head(s: Seq<char>)
    ensures
        trim_start_rec(s).len() > 0 ==> !is_space_char(trim_start_rec(s)[0]),
    decreases s.len(),
{
    if s.len() > 0 && is_space_char(s[0]) {
        lemma_trim_start_head(s.drop_first());
    }
}

/// The whitespace-separated words of a text, in order.
pub open spec fn split_ws(s: Seq<char>) -> Seq<Seq<char>>
    decreases s.len(),
    via split_ws_dec
{
    let t = trim_start_rec(s);
    if t.len() == 0 {
        Seq::empty()
    } else {
        let i = if find_space(t) < 0 {
            t.len() as int
        } else {
            find_space(t)
        };
        seq![t.subrange(0, i)] + split_ws(t.subrange(i, t.len() as int))
    }
}

#[via_fn]
proof fn split_ws_dec(s: Seq<char>) {
    lemma_trim_start_len(s);
    lemma_trim_start_head(s);
    let t = trim_start_rec(s);
    if t.len() > 0 {
        lemma_find_space_bound(t);
        assert(!is_space_char(t[0]));
        assert(find_space(t) != 0);
    }
}

/// The whitespace-separated words of the characters.
pub fn split_whitespace_chars(v: &Vec<char>) -> (r: Vec<Vec<char>>)
    ensures
        r.deep_view() == split_ws(v@),
    decreases v@.len(),
{
    let t = trim_start_chars(v);
    proof {
        lemma_trim_start_len(v@);
        lemma_trim_start_head(v@);
    }
    if t.len() == 0 {
        let r: Vec<Vec<char>> = Vec::new();
        assert(r.deep_view() =~= split_ws(v@));
        r
    } else {
        proof {
            lemma_find_space_bound(t@);
            assert(!is_space_char(t@[0]));
            assert(find_space(t@) != 0);
        }
        let i = match find_space_in(&t) {
            Some(i) => i,
            None => t.len(),
        };
        assert(i >= 1);
        let word = subrange_chars(&t, 0, i);
        let rest = subrange_chars(&t, i, t.len());
        let mut tail = split_whitespace_chars(&rest);
        let ghost wordv = word@;
        let ghost tailv = tail.deep_view();
        let ghost tailvecs = tail@;
        let mut r: Vec<Vec<char>> = Vec::new();
        r.push(word);
        r.append(&mut tail);
        proof {
            let dv = r.deep_view();
            assert(dv.len() == 1 + tailv.len());
            assert(dv[0] =~= wordv);
            assert forall|k: int| 1 <= k < dv.len() implies dv[k] == tailv[k - 1] by {
                assert(r@[k] == tailvecs[k - 1]);
                assert(tailvecs[k - 1].deep_view() == tailv[k - 1]);
            }
            assert(dv =~= seq![wordv] + tailv);
            assert(dv =~= split_ws(v@));
        }
        r
    }
}

/// Whether the two characters at `i` start a line comment.
pub open spec fn comment_start_at(s: Seq<char>, i: int) -> bool {
    0 <= i && i + 2 <= s.len() && s[i] == '/' && s[i + 1] == '/'
}

/// The prefix of a line that stands before its first `//` comment.
pub open spec fn before_comment(s: Seq<char>) -> Seq<char>
    decreases s.len(),
{
    if comment_start_at(s, 0) {
        Seq::empty()
    } else if s.len() == 0 {
        s
    } else {
        seq![s[0]] + before_comment(s.drop_first())
    }
}

/// Whether a text holds no line comment anywhere.
pub open spec fn no_comment(s: Seq<char>) -> bool {
    forall|k: int| !comment_start_at(s, k)
}

/// A text with no comment survives comment stripping whole.
pub proof fn lemma_before_comment_whole(s: Seq<char>)
    requires
        no_comment(s),
    ensures
        before_comment(s) == s,
    decreases s.len(),
{
    assert(!comment_start_at(s, 0));
    if s.len() > 0 {
        assert forall|k: int| !comment_start_at(s.drop_first(), k) by {
            if comment_start_at(s.drop_first(), k) {
                assert(comment_start_at(s, k + 1));
            }
        }
        lemma_before_comment_whole(s.drop_first());
        assert(before_comment(s) =~= s);
    }
}

/// Comment-freedom is preserved by gluing, unless the seam makes `//`.
pub proof fn lemma_no_comment_concat(a: Seq<char>, b: Seq<char>)
    requires
        no_comment(a),
        no_comment(b),
        !(a.len() > 0 && b.len() > 0 && a.last() == '/' && b[0] == '/'),
    ensures
        no_comment(a + b),
{
    let s = a + b;
    assert forall|k: int| !comment_start_at(s, k) by {
        if 0 <= k && k + 2 <= s.len() {
            if k + 2 <= a.len() {
                assert(s[k] == a[k] && s[k + 1] == a[k + 1]);
                assert(!comment_start_at(a, k));
            } else if k >= a.len() {
                assert(s[k] == b[k - a.len()] && s[k + 1] == b[k + 1 - a.len()]);
                assert(!comment_start_at(b, k - a.len()));
            } else {
                assert(k == a.len() - 1);
                assert(s[k] == a.last() && s[k + 1] == b[0]);
            }
        }
    }
}

/// A text whose ends are not blank is already trimmed.
pub proof fn lemma_trim_of_clean(s: Seq<char>)
    requires
        s.len() > 0,
        !is_space_char(s[0]),
        !is_space_char(s.last()),
    ensures
        spec_trim(s) == s,
{
    assert(trim_start_rec(s) == s);
    assert(trim_end_rec(s) == s);
}

/// Whether a text has no whitespace at all.
pub open spec fn no_space(s: Seq<char>) -> bool {
    forall|k: int| 0 <= k < s.len() ==> !is_space_char(#[trigger] s[k])
}

proof fn lemma_find_space_concat(w: Seq<char>, tail: Seq<char>)
    requires
        no_space(w),
        tail.len() > 0,
        is_space_char(tail[0]),
    ensures
        find_space(w + tail) == w.len(),
    decreases w.len(),
{
    let s = w + tail;
    if w.len() == 0 {
        assert(s =~= tail);
    } else {
        assert(s[0] == w[0]);
        assert(s.drop_first() =~= w.drop_first() + tail);
        lemma_find_space_concat(w.drop_first(), tail);
    }
}

/// A single whitespace-free word splits to itself.
pub proof fn lemma_split_word(w: Seq<char>)
    requires
        w.len() > 0,
        no_space(w),
    ensures
        split_ws(w) == seq![w],
{
    assert(trim_start_rec(w) == w);
    lemma_find_space_bound(w);
    assert(find_space(w) == -1);
    assert(w.subrange(0, w.len() as int) =~= w);
    let rest = w.subrange(w.len() as int, w.len() as int);
    assert(rest =~= Seq::<char>::empty());
    assert(trim_start_rec(rest) == rest);
    assert(split_ws(rest) =~= Seq::<Seq<char>>::empty());
    assert(split_ws(w) =~= seq![w]);
}

/// Splitting takes the first word off a word-space-rest text.
pub proof fn lemma_split_cons(w: Seq<char>, rest: Seq<char>)
    requires
        w.len() > 0,
        no_space(w),
        rest.len() > 0,
        !is_space_char(rest[0]),
    ensures
        split_ws(w + " "@ + rest) == seq![w] + split_ws(rest),
{
    reveal_strlit(" ");
    let s = w + " "@ + rest;
    let sp = " "@ + rest;
    assert(s =~= w + sp);
    assert(is_space_char(sp[0]));
    assert(s[0] == w[0]);
    assert(trim_start_rec(s) == s);
    lemma_find_space_concat(w, sp);
    assert(find_space(s) == w.len());
    assert(s.subrange(0, w.len() as int) =~= w);
    let tail = s.subrange(w.len() as int, s.len() as int);
    assert(tail =~= sp);
    // one blank, then the rest: trimming the blank leaves `rest`
    assert(sp.drop_first() =~= rest);
    assert(trim_start_rec(sp) == trim_start_rec(rest));
    assert(trim_start_rec(rest) == rest);
    assert(split_ws(sp) == split_ws(rest)) by {
        assert(trim_start_rec(sp) == rest);
        if rest.len() == 0 {
        } else {
            assert(split_ws(sp) =~= split_ws(rest));
        }
    }
    assert(split_ws(s) =~= seq![w] + split_ws(rest));
}

/// The decimal text of a number: non-empty, all digits.
pub proof fn lemma_dec_rep_digits(n: nat)
    ensures
        dec_rep(n).len() > 0,
        all_dec_digits(dec_rep(n)),
    decreases n,
{
    if n < 10 {
        assert(is_dec_digit(digit_char(n)));
    } else {
        lemma_dec_rep_digits(n / 10);
        assert(is_dec_digit(digit_char(n % 10)));
        assert forall|k: int| 0 <= k < dec_rep(n).len() implies is_dec_digit(
            #[trigger] dec_rep(n)[k],
        ) by {
            if k < dec_rep(n / 10).len() {
                assert(dec_rep(n)[k] == dec_rep(n / 10)[k]);
            }
        }
    }
}

/// Reading back the decimal text of a number gives the number.
pub proof fn lemma_dec_val_of_rep(n: nat)
    ensures
        dec_val(dec_rep(n)) == n,
    decreases n,
{
    assert('0' as u32 == 48 && '1' as u32 == 49 && '2' as u32 == 50 && '3' as u32 == 51
        && '4' as u32 == 52 && '5' as u32 == 53 && '6' as u32 == 54 && '7' as u32 == 55
        && '8' as u32 == 56 && '9' as u32 == 57);
    if n < 10 {
        let s = dec_rep(n);
        assert(s.drop_last() =~= Seq::<char>::empty());
        assert(dec_val(Seq::<char>::empty()) == 0);
        assert(s.last() == digit_char(n));
        assert(dec_val(s) == dec_val(s.drop_last()) * 10 + digit_val(s.last()));
        assert(digit_val(digit_char(n)) == n);
    } else {
        lemma_dec_val_of_rep(n / 10);
        let s = dec_rep(n);
        assert(s.drop_last() =~= dec_rep(n / 10));
        assert(dec_val(s) == dec_val(dec_rep(n / 10)) * 10 + digit_val(digit_char(n % 10)));
        assert(digit_val(digit_char((n % 10) as nat)) == n % 10);
        assert((n / 10) * 10 + n % 10 == n) by {
            vstd::arithmetic::div_mod::lemma_fundamental_div_mod(n as int, 10);
        }
    }
}

/// Digits are neither blanks nor slashes.
pub proof fn lemma_digits_plain(s: Seq<char>)
    requires
        all_dec_digits(s),
    ensures
        no_space(s),
        no_comment(s),
        forall|k: int| 0 <= k < s.len() ==> #[trigger] s[k] != '/',
{
    assert forall|k: int| 0 <= k < s.len() implies !is_space_char(#[trigger] s[k]) && s[k]
        != '/' by {
        assert(is_dec_digit(s[k]));
        assert(' ' as u32 == 32 && '\t' as u32 == 9 && '\n' as u32 == 10 && '\r' as u32 == 13
            && '\u{b}' as u32 == 11 && '\u{c}' as u32 == 12 && '/' as u32 == 47);
    }
    assert forall|k: int| !comment_start_at(s, k) by {
        if 0 <= k && k + 2 <= s.len() {
            assert(is_dec_digit(s[k]));
            assert('/' as u32 == 47);
        }
    }
}

/// A copy of a line up to (not including) its first `//` comment.
pub fn strip_comment(v: &Vec<char>) -> (r: Vec<char>)
    ensures
        r@ == before_comment(v@),
{
    let n = v.len();
    let mut i: usize = 0;
    assert(v@.skip(0) =~= v@);
    assert(v@.subrange(0, 0) =~= Seq::<char>::empty());
    while i < n && n - i > 1 && !(v[i] == '/' && v[i + 1] == '/')
        invariant
            0 <= i <= n == v@.len(),
            before_comment(v@) == v@.subrange(0, i as int) + before_comment(v@.skip(i as int)),
        decreases n - i,
    {
        assert(v@.skip(i as int).drop_first() =~= v@.skip(i + 1 as int));
        assert(v@.skip(i as int)[0] == v@[i as int]);
        assert(v@.skip(i as int)[1] == v@[i + 1 as int]);
        assert(v@.subrange(0, i + 1 as int) =~= v@.subrange(0, i as int) + seq![v@[i as int]]);
        i += 1;
    }
    if i < n && n - i > 1 {
        // a comment starts at i
        assert(comment_start_at(v@.skip(i as int), 0));
        let r = subrange_chars(v, 0, i);
        assert(before_comment(v@) =~= r@);
        r
    } else {
        // no comment: the remaining one or zero characters cannot start one
        proof {
            let s = v@.skip(i as int);
            assert(s.len() <= 1);
            if s.len() == 1 {
                assert(s.drop_first() =~= Seq::<char>::empty());
                assert(before_comment(s.drop_first()) =~= Seq::<char>::empty());
                assert(before_comment(s) =~= s);
            } else {
                assert(before_comment(s) =~= s);
            }
        }
        let r = subrange_chars(v, 0, n);
        assert(r@ =~= v@.subrange(0, i as int) + v@.skip(i as int));
        assert(before_comment(v@) =~= r@);
        r
    }
}

} // verus!
