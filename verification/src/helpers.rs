//! Cursor movement, address normalisation and message helpers.

use vstd::prelude::*;
use crate::text::{
    chars_of, concat, is_ascii_digit, is_whitespace, owned, seq_contains, spec_is_ascii_digit,
    spec_is_whitespace, spec_to_lowercase, str_contains, string_of_vec, to_lowercase,
};

verus! {

/// First index at or after `i` where the run of characters whose whitespace-ness is `ws` ends.
pub open spec fn run_end(s: Seq<char>, i: int, ws: bool) -> int
    decreases s.len() - i,
{
    if 0 <= i < s.len() && spec_is_whitespace(s[i]) == ws {
        run_end(s, i + 1, ws)
    } else {
        i
    }
}

/// First index at or before `i` where the run (going backwards) of characters
/// whose whitespace-ness is `ws` begins.
pub open spec fn run_start(s: Seq<char>, i: int, ws: bool) -> int
    decreases i,
{
    if 0 < i <= s.len() && spec_is_whitespace(s[i - 1]) == ws {
        run_start(s, i - 1, ws)
    } else {
        i
    }
}

/// Cursor position after a word-wise move to the right from `cursor`:
/// past the rest of the current word, then past the whitespace after it.
pub open spec fn spec_word_right(s: Seq<char>, cursor: nat) -> int {
    run_end(s, run_end(s, cursor as int, false), true)
}

/// Cursor position after a word-wise move to the left from `cursor`:
/// back over whitespace, then back over the word before it.  Characters past
/// the end of `s` are not there to skip, so only the part of `s` before the
/// cursor is walked.
pub open spec fn spec_word_left(s: Seq<char>, cursor: nat) -> int {
    let p = if cursor <= s.len() { cursor as int } else { s.len() as int };
    cursor - (p - run_start(s, run_start(s, p, true), false))
}

proof fn lemma_run_end_bounds(s: Seq<char>, i: int, ws: bool)
    requires
        0 <= i,
    ensures
        i <= run_end(s, i, ws),
        i <= s.len() ==> run_end(s, i, ws) <= s.len(),
    decreases s.len() - i,
{
    if 0 <= i < s.len() && spec_is_whitespace(s[i]) == ws {
        lemma_run_end_bounds(s, i + 1, ws);
    }
}

proof fn lemma_run_start_bounds(s: Seq<char>, i: int, ws: bool)
    requires
        0 <= i <= s.len(),
    ensures
        0 <= run_start(s, i, ws) <= i,
    decreases i,
{
    if 0 < i <= s.len() && spec_is_whitespace(s[i - 1]) == ws {
        lemma_run_start_bounds(s, i - 1, ws);
    }
}

fn skip_run(v: &Vec<char>, i: usize, ws: bool) -> (j: usize)
    requires
        i <= v@.len(),
    ensures
        j == run_end(v@, i as int, ws),
        i <= j <= v@.len(),
    decreases v@.len() - i,
{
    if i < v.len() && is_whitespace(v[i]) == ws {
        skip_run(v, i + 1, ws)
    } else {
        i
    }
}

fn skip_run_back(v: &Vec<char>, i: usize, ws: bool) -> (j: usize)
    requires
        i <= v@.len(),
    ensures
        j == run_start(v@, i as int, ws),
        j <= i,
    decreases i,
{
    if i > 0 && is_whitespace(v[i - 1]) == ws {
        skip_run_back(v, i - 1, ws)
    } else {
        i
    }
}

/// Moves a character cursor one word to the right in `s`.
pub fn word_right(s: &str, cursor: usize) -> (r: usize)
    ensures
        r == spec_word_right(s@, cursor as nat),
        cursor <= r,
        cursor <= s@.len() ==> r <= s@.len(),
{
    let v = chars_of(s);
    if cursor >= v.len() {
        proof {
            lemma_run_end_bounds(s@, cursor as int, false);
        }
        return cursor;
    }
    let a = skip_run(&v, cursor, false);
    skip_run(&v, a, true)
}

/// Moves a character cursor one word to the left in `s`.
pub fn word_left(s: &str, cursor: usize) -> (r: usize)
    ensures
        r == spec_word_left(s@, cursor as nat),
        r <= cursor,
{
    let v = chars_of(s);
    let p = if cursor <= v.len() { cursor } else { v.len() };
    let a = skip_run_back(&v, p, true);
    let b = skip_run_back(&v, a, false);
    cursor - (p - b)
}

/// Number of bytes in the UTF-8 encoding of `c`.
pub open spec fn spec_utf8_width(c: char) -> nat {
    let u = c as u32;
    if u <= 0x7F { 1 } else if u <= 0x7FF { 2 } else if u <= 0xFFFF { 3 } else { 4 }
}

/// Number of bytes in the UTF-8 encoding of a character sequence.
pub open spec fn spec_utf8_len(s: Seq<char>) -> nat
    decreases s.len(),
{
    if s.len() == 0 { 0 } else { spec_utf8_width(s[0]) + spec_utf8_len(s.drop_first()) }
}

proof fn lemma_utf8_len_is_encoding_len(s: Seq<char>)
    ensures
        spec_utf8_len(s) == vstd::utf8::encode_utf8(s).len(),
    decreases s.len(),
{
    if s.len() > 0 {
        lemma_utf8_len_is_encoding_len(s.drop_first());
        vstd::utf8::char_is_scalar(s[0]);
        assert(vstd::utf8::encode_scalar(s[0] as u32).len() == spec_utf8_width(s[0]));
    }
}

proof fn lemma_utf8_len_push(s: Seq<char>, c: char)
    ensures
        spec_utf8_len(s.push(c)) == spec_utf8_len(s) + spec_utf8_width(c),
    decreases s.len(),
{
    if s.len() == 0 {
        assert(s.push(c).drop_first() =~= Seq::<char>::empty());
        assert(spec_utf8_len(Seq::<char>::empty()) == 0);
        assert(spec_utf8_len(s.push(c)) == spec_utf8_width(c) + spec_utf8_len(s.push(c).drop_first()));
    } else {
        lemma_utf8_len_push(s.drop_first(), c);
        assert(s.push(c).drop_first() =~= s.drop_first().push(c));
        assert(spec_utf8_len(s.push(c)) == spec_utf8_width(s[0]) + spec_utf8_len(s.push(c).drop_first()));
    }
}

fn utf8_width(c: char) -> (n: usize)
    ensures
        n == spec_utf8_width(c),
{
    let u = c as u32;
    if u <= 0x7F { 1 } else if u <= 0x7FF { 2 } else if u <= 0xFFFF { 3 } else { 4 }
}

/// Byte offset in `s` of the character with index `char_idx`, or the byte
/// length of `s` when there is no such character.
pub fn char_to_byte(s: &str, char_idx: usize) -> (b: usize)
    ensures
        char_idx < s@.len() ==> b == spec_utf8_len(s@.take(char_idx as int)),
        char_idx >= s@.len() ==> b == spec_utf8_len(s@),
{
    let v = chars_of(s);
    let bytes = s.as_bytes();
    let total = bytes.len();
    proof {
        lemma_utf8_len_is_encoding_len(s@);
        if v@.len() > 0 {
            lemma_utf8_len_prefix_le(s@, 1);
            lemma_utf8_len_push(s@.take(0), s@[0]);
            assert(s@.take(0).push(s@[0]) =~= s@.take(1));
            assert(s@.take(0) =~= Seq::<char>::empty());
        }
    }
    let mut acc: usize = 0;
    let mut i: usize = 0;
    while i < v.len()
        invariant
            i <= v@.len(),
            i <= char_idx,
            v@ == s@,
            total == spec_utf8_len(s@),
            acc == spec_utf8_len(s@.take(i as int)),
            i < v@.len() ==> spec_utf8_len(s@.take(i as int)) + spec_utf8_width(s@[i as int]) <= total,
        decreases v@.len() - i,
    {
        if i == char_idx {
            return acc;
        }
        proof {
            lemma_utf8_len_push(s@.take(i as int), s@[i as int]);
            assert(s@.take(i as int).push(s@[i as int]) =~= s@.take(i + 1));
            if i + 1 < v@.len() {
                lemma_utf8_len_prefix_le(s@, i + 2);
                lemma_utf8_len_push(s@.take(i + 1), s@[i + 1]);
                assert(s@.take(i + 1).push(s@[i + 1]) =~= s@.take(i + 2));
            }
        }
        acc = acc + utf8_width(v[i]);
        i += 1;
    }
    assert(s@.take(i as int) =~= s@);
    total
}

proof fn lemma_utf8_len_append(a: Seq<char>, b: Seq<char>)
    ensures
        spec_utf8_len(a + b) == spec_utf8_len(a) + spec_utf8_len(b),
    decreases a.len(),
{
    if a.len() == 0 {
        assert(a + b =~= b);
    } else {
        lemma_utf8_len_append(a.drop_first(), b);
        assert((a + b).drop_first() =~= a.drop_first() + b);
    }
}

proof fn lemma_utf8_len_prefix_le(s: Seq<char>, k: int)
    requires
        0 <= k <= s.len(),
    ensures
        spec_utf8_len(s.take(k)) <= spec_utf8_len(s),
{
    lemma_utf8_len_append(s.take(k), s.skip(k));
    assert(s.take(k) + s.skip(k) =~= s);
}

/// The ASCII digits of `s`, in order.
pub open spec fn digits_of(s: Seq<char>) -> Seq<char>
    decreases s.len(),
{
    if s.len() == 0 {
        seq![]
    } else if spec_is_ascii_digit(s.last()) {
        digits_of(s.drop_last()).push(s.last())
    } else {
        digits_of(s.drop_last())
    }
}

/// Canonical key for a phone number or e-mail address: the last ten digits
/// when there are at least ten, all the digits when there are seven to nine,
/// and otherwise the lowercased address.
pub open spec fn spec_normalize_address(s: Seq<char>) -> Seq<char> {
    let d = digits_of(s);
    if d.len() >= 10 {
        d.skip(d.len() - 10)
    } else if d.len() >= 7 {
        d
    } else {
        spec_to_lowercase(s)
    }
}

/// Normalises an address so that differently formatted phone numbers compare equal.
pub fn normalize_address(addr: &str) -> (r: String)
    ensures
        r@ == spec_normalize_address(addr@),
{
    let v = chars_of(addr);
    let mut d: Vec<char> = Vec::new();
    let mut i: usize = 0;
    while i < v.len()
        invariant
            i <= v@.len(),
            v@ == addr@,
            d@ == digits_of(v@.take(i as int)),
        decreases v@.len() - i,
    {
        assert(v@.take(i + 1).drop_last() =~= v@.take(i as int));
        if is_ascii_digit(v[i]) {
            d.push(v[i]);
        }
        i += 1;
    }
    assert(v@.take(v@.len() as int) =~= v@);
    if d.len() >= 10 {
        let mut out: Vec<char> = Vec::new();
        let start = d.len() - 10;
        let mut j = start;
        while j < d.len()
            invariant
                start <= j <= d@.len(),
                start == d@.len() - 10,
                out@ == d@.subrange(start as int, j as int),
            decreases d@.len() - j,
        {
            out.push(d[j]);
            assert(d@.subrange(start as int, j as int).push(d@[j as int]) =~= d@.subrange(start as int, j + 1));
            j += 1;
        }
        assert(d@.subrange(start as int, d@.len() as int) =~= d@.skip(start as int));
        string_of_vec(&out)
    } else if d.len() >= 7 {
        string_of_vec(&d)
    } else {
        to_lowercase(addr)
    }
}

/// User-facing text for a failed login, from the error text of the attempt.
pub open spec fn spec_friendly_login_error(msg: Seq<char>) -> Seq<char> {
    if seq_contains(msg, "401"@) {
        "Password is incorrect"@
    } else if seq_contains(msg, "refused"@) || seq_contains(msg, "connection"@)
        || seq_contains(msg, "timeout"@) || seq_contains(msg, "resolve"@)
        || seq_contains(msg, "dns"@) {
        "Could not connect to server. Check the host address."@
    } else {
        "Login failed: "@ + msg
    }
}

/// Turns the error text of a login attempt into a message for the login screen.
pub fn friendly_login_error(msg: &str) -> (r: String)
    ensures
        r@ == spec_friendly_login_error(msg@),
{
    if str_contains(msg, "401") {
        owned("Password is incorrect")
    } else if str_contains(msg, "refused") || str_contains(msg, "connection")
        || str_contains(msg, "timeout") || str_contains(msg, "resolve")
        || str_contains(msg, "dns") {
        owned("Could not connect to server. Check the host address.")
    } else {
        concat("Login failed: ", msg)
    }
}

/// `s` with every double quote replaced by a single quote.
pub open spec fn spec_dequote(s: Seq<char>) -> Seq<char> {
    Seq::new(s.len(), |i: int| if s[i] == '"' { '\'' } else { s[i] })
}

/// Prepares text for a desktop notification: double quotes become single
/// quotes so the text can sit inside a quoted notifier argument.
pub fn notification_text(s: &str) -> (r: String)
    ensures
        r@ == spec_dequote(s@),
{
    let v = chars_of(s);
    let mut out: Vec<char> = Vec::new();
    let mut i: usize = 0;
    while i < v.len()
        invariant
            i <= v@.len(),
            v@ == s@,
            out@ =~= spec_dequote(s@).take(i as int),
        decreases v@.len() - i,
    {
        if v[i] == '"' {
            out.push('\'');
        } else {
            out.push(v[i]);
        }
        i += 1;
    }
    string_of_vec(&out)
}

proof fn lemma_digits_of_digits(s: Seq<char>)
    requires
        forall|i: int| 0 <= i < s.len() ==> spec_is_ascii_digit(#[trigger] s[i]),
    ensures
        digits_of(s) == s,
    decreases s.len(),
{
    if s.len() > 0 {
        lemma_digits_of_digits(s.drop_last());
        assert(s.drop_last().push(s.last()) =~= s);
    }
}

proof fn lemma_digits_are_digits(s: Seq<char>)
    ensures
        forall|i: int| 0 <= i < digits_of(s).len() ==> spec_is_ascii_digit(#[trigger] digits_of(s)[i]),
    decreases s.len(),
{
    if s.len() > 0 {
        lemma_digits_are_digits(s.drop_last());
        let prev = digits_of(s.drop_last());
        assert forall|i: int| 0 <= i < digits_of(s).len() implies spec_is_ascii_digit(#[trigger] digits_of(s)[i]) by {
            if i < prev.len() {
                assert(digits_of(s)[i] == prev[i]);
            }
        }
    }
}

/// Normalising a phone number (an address with at least seven digits) a
/// second time changes nothing.
pub proof fn law_normalize_phone_idempotent(a: Seq<char>)
    requires
        digits_of(a).len() >= 7,
    ensures
        spec_normalize_address(spec_normalize_address(a)) == spec_normalize_address(a),
{
    let d = digits_of(a);
    lemma_digits_are_digits(a);
    let n = spec_normalize_address(a);
    assert forall|i: int| 0 <= i < n.len() implies spec_is_ascii_digit(#[trigger] n[i]) by {
        if d.len() >= 10 {
            assert(n[i] == d[i + d.len() - 10]);
        }
    }
    lemma_digits_of_digits(n);
    if d.len() >= 10 {
        assert(n.len() == 10);
        assert(n.skip(0) =~= n);
    }
}

proof fn lemma_run_start_runs(s: Seq<char>, i: int, ws: bool)
    requires
        0 <= i <= s.len(),
    ensures
        0 <= run_start(s, i, ws) <= i,
        forall|k: int| run_start(s, i, ws) <= k < i ==> spec_is_whitespace(#[trigger] s[k]) == ws,
        run_start(s, i, ws) == 0 || spec_is_whitespace(s[run_start(s, i, ws) - 1]) != ws,
    decreases i,
{
    if 0 < i && spec_is_whitespace(s[i - 1]) == ws {
        lemma_run_start_runs(s, i - 1, ws);
    }
}

/// `s[r..k]` is a word and `s[k..cursor]` whitespace, the word starting the
/// text or following whitespace and the whitespace following a non-space or
/// starting the text.
pub open spec fn word_then_space(s: Seq<char>, r: int, k: int, cursor: int) -> bool {
    &&& 0 <= r <= k <= cursor <= s.len()
    &&& forall|j: int| k <= j < cursor ==> spec_is_whitespace(#[trigger] s[j])
    &&& forall|j: int| r <= j < k ==> !spec_is_whitespace(#[trigger] s[j])
    &&& (k == 0 || !spec_is_whitespace(s[k - 1]))
    &&& (r == 0 || spec_is_whitespace(s[r - 1]))
}

/// A word move to the left from a cursor inside the text skips the
/// whitespace just before the cursor and then the word before that: it lands
/// at the start of that word, right after whitespace or at the start of the text.
pub proof fn law_word_left_runs(s: Seq<char>, cursor: nat)
    requires
        cursor <= s.len(),
    ensures
        0 <= spec_word_left(s, cursor) <= cursor,
        exists|k: int| #[trigger] word_then_space(s, spec_word_left(s, cursor), k, cursor as int),
{
    let a = run_start(s, cursor as int, true);
    lemma_run_start_runs(s, cursor as int, true);
    lemma_run_start_runs(s, a, false);
    assert(word_then_space(s, spec_word_left(s, cursor), a, cursor as int));
}

} // verus!
