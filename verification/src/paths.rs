//! File names and paths: safe names for downloads, dropped-file parsing.

use vstd::prelude::*;
use crate::helpers::run_end;
use crate::text::{chars_of, is_whitespace, seq_starts_with, spec_trim, string_of_vec, trim};

verus! {

/// Is `c` a path separator on any platform the client runs on?
pub open spec fn is_sep(c: char) -> bool {
    c == '/' || c == '\\'
}

/// Index just after the last separator in `s.take(i)` (0 when there is none).
pub open spec fn last_seg_start(s: Seq<char>, i: int) -> int
    decreases i,
{
    if i <= 0 || i > s.len() {
        0
    } else if is_sep(s[i - 1]) {
        i
    } else {
        last_seg_start(s, i - 1)
    }
}

/// The part of `s` after its last separator.
pub open spec fn spec_last_segment(s: Seq<char>) -> Seq<char> {
    s.skip(last_seg_start(s, s.len() as int))
}

/// `s` with every NUL character replaced by `_`.
pub open spec fn spec_replace_nul(s: Seq<char>) -> Seq<char> {
    Seq::new(s.len(), |i: int| if s[i] == '\0' { '_' } else { s[i] })
}

/// Name under which a downloaded attachment is saved: the trimmed last path
/// component of the name it was sent with, or the attachment's guid when that
/// component is empty, `.` or `..`; NUL characters become `_`.
pub open spec fn spec_safe_attachment_file_name(name: Seq<char>, guid: Seq<char>) -> Seq<char> {
    let c = spec_trim(spec_last_segment(name));
    let chosen = if c.len() == 0 || c == "."@ || c == ".."@ { guid } else { c };
    spec_replace_nul(chosen)
}

proof fn lemma_last_seg_start(s: Seq<char>, i: int)
    requires
        0 <= i <= s.len(),
    ensures
        0 <= last_seg_start(s, i) <= i,
        forall|k: int| last_seg_start(s, i) <= k < i ==> !is_sep(#[trigger] s[k]),
    decreases i,
{
    if i > 0 && !is_sep(s[i - 1]) {
        lemma_last_seg_start(s, i - 1);
    }
}

fn last_segment(v: &Vec<char>) -> (r: Vec<char>)
    ensures
        r@ == spec_last_segment(v@),
{
    let mut i = v.len();
    while i > 0 && !(v[i - 1] == '/' || v[i - 1] == '\\')
        invariant
            i <= v@.len(),
            last_seg_start(v@, v@.len() as int) == last_seg_start(v@, i as int),
        decreases i,
    {
        i -= 1;
    }
    let mut out: Vec<char> = Vec::new();
    let mut j = i;
    while j < v.len()
        invariant
            i <= j <= v@.len(),
            out@ == v@.subrange(i as int, j as int),
        decreases v@.len() - j,
    {
        out.push(v[j]);
        assert(v@.subrange(i as int, j as int).push(v@[j as int]) =~= v@.subrange(i as int, j + 1));
        j += 1;
    }
    assert(v@.subrange(i as int, v@.len() as int) =~= v@.skip(i as int));
    out
}

fn is_dot_name(v: &Vec<char>) -> (b: bool)
    ensures
        b == (v@.len() == 0 || v@ == "."@ || v@ == ".."@),
{
    proof {
        reveal_strlit(".");
        reveal_strlit("..");
    }
    if v.len() == 0 {
        true
    } else if v.len() == 1 {
        let r = v[0] == '.';
        assert(r ==> v@ =~= "."@);
        r
    } else if v.len() == 2 {
        let r = v[0] == '.' && v[1] == '.';
        assert(r ==> v@ =~= ".."@);
        r
    } else {
        false
    }
}

/// A file name for saving an attachment that cannot leave the download
/// directory: path components of the sent name are dropped.
pub fn safe_attachment_file_name(name: &str, guid: &str) -> (r: String)
    ensures
        r@ == spec_safe_attachment_file_name(name@, guid@),
        forall|i: int| 0 <= i < r@.len() ==> r@[i] != '\0',
        (forall|i: int| 0 <= i < guid@.len() ==> !is_sep(#[trigger] guid@[i]))
            ==> forall|i: int| 0 <= i < r@.len() ==> !is_sep(#[trigger] r@[i]),
{
    let nv = chars_of(name);
    let seg = last_segment(&nv);
    let seg_s = string_of_vec(&seg);
    let c = trim(seg_s.as_str());
    let cv = chars_of(c.as_str());
    let chosen = if is_dot_name(&cv) { chars_of(guid) } else { cv };
    proof {
        lemma_last_seg_start(name@, name@.len() as int);
        lemma_trim_sub(spec_last_segment(name@));
        assert forall|k: int| 0 <= k < spec_last_segment(name@).len() implies !is_sep(#[trigger] spec_last_segment(name@)[k]) by {
            assert(spec_last_segment(name@)[k] == name@[last_seg_start(name@, name@.len() as int) + k]);
        }
    }
    let mut out: Vec<char> = Vec::new();
    let mut i: usize = 0;
    while i < chosen.len()
        invariant
            i <= chosen@.len(),
            out@ =~= spec_replace_nul(chosen@).take(i as int),
        decreases chosen@.len() - i,
    {
        if chosen[i] == '\0' {
            out.push('_');
        } else {
            out.push(chosen[i]);
        }
        i += 1;
    }
    string_of_vec(&out)
}

/// Trimming keeps a subsequence: every character of the result occurs in the input.
proof fn lemma_trim_sub(s: Seq<char>)
    ensures
        forall|k: int| 0 <= k < spec_trim(s).len() ==> exists|j: int| 0 <= j < s.len() && s[j] == #[trigger] spec_trim(s)[k],
{
    lemma_trim_start_sub(s);
    lemma_trim_end_sub(crate::text::spec_trim_start(s));
}

proof fn lemma_trim_start_sub(s: Seq<char>)
    ensures
        exists|a: int| 0 <= a <= s.len() && crate::text::spec_trim_start(s) == s.skip(a),
    decreases s.len(),
{
    if s.len() > 0 && crate::text::spec_is_whitespace(s[0]) {
        lemma_trim_start_sub(s.drop_first());
        let a = choose|a: int| 0 <= a <= s.drop_first().len() && crate::text::spec_trim_start(s.drop_first()) == s.drop_first().skip(a);
        assert(s.drop_first().skip(a) =~= s.skip(a + 1));
    } else {
        assert(s.skip(0) =~= s);
    }
}

proof fn lemma_trim_end_sub(s: Seq<char>)
    ensures
        exists|b: int| 0 <= b <= s.len() && crate::text::spec_trim_end(s) == s.take(b),
    decreases s.len(),
{
    if s.len() > 0 && crate::text::spec_is_whitespace(s.last()) {
        lemma_trim_end_sub(s.drop_last());
        let b = choose|b: int| 0 <= b <= s.drop_last().len() && crate::text::spec_trim_end(s.drop_last()) == s.drop_last().take(b);
        assert(s.drop_last().take(b) =~= s.take(b));
    } else {
        assert(s.take(s.len() as int) =~= s);
    }
}


/// Value of an ASCII hexadecimal digit byte.
pub open spec fn hex_value(b: u8) -> Option<u32> {
    if 48 <= b <= 57 {
        Some((b - 48) as u32)
    } else if 97 <= b <= 102 {
        Some((b - 87) as u32)
    } else if 65 <= b <= 70 {
        Some((b - 55) as u32)
    } else {
        None
    }
}

/// Decoding of `%XX` escapes over bytes.  A `%` always consumes the two bytes
/// after it (as far as there are any); when both are hex digits the escape
/// becomes the character with that code (0 to 255), otherwise a plain `%`.
/// Every other byte becomes the character with that code.
pub open spec fn spec_percent_decode_bytes(bs: Seq<u8>) -> Seq<char>
    decreases bs.len(),
{
    if bs.len() == 0 {
        Seq::empty()
    } else if bs[0] == 37 {
        let h1 = if bs.len() > 1 { hex_value(bs[1]) } else { None };
        let h2 = if bs.len() > 2 { hex_value(bs[2]) } else { None };
        let rest = if bs.len() > 3 { bs.skip(3) } else { Seq::empty() };
        match (h1, h2) {
            (Some(a), Some(b)) => seq![((a * 16 + b) as u8) as char] + spec_percent_decode_bytes(rest),
            _ => seq!['%'] + spec_percent_decode_bytes(rest),
        }
    } else {
        seq![bs[0] as char] + spec_percent_decode_bytes(bs.drop_first())
    }
}

/// Percent-decoding of a string, over its UTF-8 bytes.
pub open spec fn spec_percent_decode(s: Seq<char>) -> Seq<char> {
    spec_percent_decode_bytes(vstd::utf8::encode_utf8(s))
}

fn hex_val(b: u8) -> (r: Option<u32>)
    ensures
        r == hex_value(b),
{
    if 48 <= b && b <= 57 {
        Some((b - 48) as u32)
    } else if 97 <= b && b <= 102 {
        Some((b - 87) as u32)
    } else if 65 <= b && b <= 70 {
        Some((b - 55) as u32)
    } else {
        None
    }
}

/// Decodes `%XX` escapes in a `file://` URI path.
pub fn percent_decode(s: &str) -> (r: String)
    ensures
        r@ == spec_percent_decode(s@),
{
    let bytes = s.as_bytes();
    let n = bytes.len();
    let mut out: Vec<char> = Vec::new();
    let mut i: usize = 0;
    assert(bytes@.skip(0) =~= bytes@);
    assert(out@ + spec_percent_decode_bytes(bytes@.skip(0)) =~= spec_percent_decode_bytes(bytes@));
    while i < n
        invariant
            i <= n,
            n == bytes@.len(),
            bytes@ == vstd::utf8::encode_utf8(s@),
            out@ + spec_percent_decode_bytes(bytes@.skip(i as int)) == spec_percent_decode(s@),
        decreases n - i,
    {
        let ghost rest = bytes@.skip(i as int);
        let b = bytes[i];
        if b == 37 {
            let h1 = if n - i > 1 { hex_val(bytes[i + 1]) } else { None };
            let h2 = if n - i > 2 { hex_val(bytes[i + 2]) } else { None };
            let next = if n - i > 3 { i + 3 } else { n };
            assert(rest.len() > 3 ==> rest.skip(3) =~= bytes@.skip(next as int));
            assert(rest.len() <= 3 ==> bytes@.skip(next as int) =~= Seq::<u8>::empty());
            let ghost old_out = out@;
            match (h1, h2) {
                (Some(a), Some(c)) => {
                    let v = ((a * 16 + c) as u8) as char;
                    out.push(v);
                    assert(out@ + spec_percent_decode_bytes(bytes@.skip(next as int)) =~= old_out + spec_percent_decode_bytes(rest));
                },
                _ => {
                    out.push('%');
                    assert(out@ + spec_percent_decode_bytes(bytes@.skip(next as int)) =~= old_out + spec_percent_decode_bytes(rest));
                },
            }
            i = next;
        } else {
            let ghost old_out = out@;
            out.push(b as char);
            assert(rest.drop_first() =~= bytes@.skip(i + 1));
            assert(out@ + spec_percent_decode_bytes(bytes@.skip(i + 1)) =~= old_out + spec_percent_decode_bytes(rest));
            i += 1;
        }
    }
    assert(bytes@.skip(n as int) =~= Seq::<u8>::empty());
    assert(out@ =~= out@ + Seq::<char>::empty());
    string_of_vec(&out)
}


/// First index at or after `i` holding `c` (the length when there is none).
pub open spec fn find_from(s: Seq<char>, i: int, c: char) -> int
    decreases s.len() - i,
{
    if i < 0 || i >= s.len() {
        s.len() as int
    } else if s[i] == c {
        i
    } else {
        find_from(s, i + 1, c)
    }
}

/// First index at or after `i` not holding `c` (the length when there is none).
pub open spec fn skip_char_from(s: Seq<char>, i: int, c: char) -> int
    decreases s.len() - i,
{
    if 0 <= i < s.len() && s[i] == c {
        skip_char_from(s, i + 1, c)
    } else {
        i
    }
}

proof fn lemma_find_from(s: Seq<char>, i: int, c: char)
    requires
        0 <= i <= s.len(),
    ensures
        i <= find_from(s, i, c) <= s.len(),
    decreases s.len() - i,
{
    if i < s.len() && s[i] != c {
        lemma_find_from(s, i + 1, c);
    }
}

proof fn lemma_skip_char_from(s: Seq<char>, i: int, c: char)
    requires
        0 <= i <= s.len(),
    ensures
        i <= skip_char_from(s, i, c) <= s.len(),
    decreases s.len() - i,
{
    if i < s.len() && s[i] == c {
        lemma_skip_char_from(s, i + 1, c);
    }
}

proof fn lemma_ws_run(s: Seq<char>, i: int)
    requires
        0 <= i <= s.len(),
    ensures
        i <= run_end(s, i, true) <= s.len(),
    decreases s.len() - i,
{
    if i < s.len() && crate::text::spec_is_whitespace(s[i]) {
        lemma_ws_run(s, i + 1);
    }
}

/// The path a dropped token names: a `file://` URI is percent-decoded,
/// anything else is taken as it is.
pub open spec fn spec_bare_path(raw: Seq<char>) -> Seq<char> {
    if seq_starts_with(raw, "file://"@) {
        spec_percent_decode(raw.skip(7))
    } else {
        raw
    }
}

/// The paths in `s` from position `i` on, as a terminal pastes dropped
/// files: tokens separated by whitespace, each bare (ending at a space),
/// single-quoted or double-quoted (ending at the matching quote; repeated
/// closing quotes are skipped).  An empty bare token ends the list.
pub open spec fn spec_dropped_from(s: Seq<char>, i: int) -> Seq<Seq<char>>
    decreases s.len() - i,
{
    if i < 0 || i > s.len() {
        Seq::empty()
    } else {
        let a = run_end(s, i, true);
        if a < i || a >= s.len() {
            Seq::empty()
        } else if s[a] == '\'' || s[a] == '"' {
            let q = s[a];
            let e = find_from(s, a + 1, q);
            let nxt = skip_char_from(s, e, q);
            if e < a + 1 || nxt < e || nxt > s.len() {
                Seq::empty()
            } else {
                seq![spec_bare_path(s.subrange(a + 1, e))] + spec_dropped_from(s, nxt)
            }
        } else {
            let e = find_from(s, a, ' ');
            if e <= a || e > s.len() {
                seq![spec_bare_path(Seq::empty())]
            } else {
                seq![spec_bare_path(s.subrange(a, e))] + spec_dropped_from(s, e)
            }
        }
    }
}

fn find_from_exec(v: &Vec<char>, i: usize, c: char) -> (j: usize)
    requires
        i <= v@.len(),
    ensures
        j == find_from(v@, i as int, c),
        i <= j <= v@.len(),
    decreases v@.len() - i,
{
    if i < v.len() && v[i] != c {
        find_from_exec(v, i + 1, c)
    } else {
        i
    }
}

fn skip_char_exec(v: &Vec<char>, i: usize, c: char) -> (j: usize)
    requires
        i <= v@.len(),
    ensures
        j == skip_char_from(v@, i as int, c),
        i <= j <= v@.len(),
    decreases v@.len() - i,
{
    if i < v.len() && v[i] == c {
        skip_char_exec(v, i + 1, c)
    } else {
        i
    }
}

fn ws_end_exec(v: &Vec<char>, i: usize) -> (j: usize)
    requires
        i <= v@.len(),
    ensures
        j == run_end(v@, i as int, true),
        i <= j <= v@.len(),
    decreases v@.len() - i,
{
    if i < v.len() && is_whitespace(v[i]) {
        ws_end_exec(v, i + 1)
    } else {
        i
    }
}

fn sub_vec(v: &Vec<char>, a: usize, b: usize) -> (r: Vec<char>)
    requires
        a <= b <= v@.len(),
    ensures
        r@ == v@.subrange(a as int, b as int),
{
    let mut out: Vec<char> = Vec::new();
    let mut i = a;
    while i < b
        invariant
            a <= i <= b,
            b <= v@.len(),
            out@ == v@.subrange(a as int, i as int),
        decreases b - i,
    {
        out.push(v[i]);
        assert(v@.subrange(a as int, i as int).push(v@[i as int]) =~= v@.subrange(a as int, i + 1));
        i += 1;
    }
    out
}

fn bare_path(raw: &Vec<char>) -> (r: String)
    ensures
        r@ == spec_bare_path(raw@),
{
    let s = string_of_vec(raw);
    if crate::text::str_starts_with(s.as_str(), "file://") {
        proof {
            reveal_strlit("file://");
        }
        let tail = sub_vec(raw, 7, raw.len());
        assert(tail@ =~= raw@.skip(7));
        let ts = string_of_vec(&tail);
        percent_decode(ts.as_str())
    } else {
        s
    }
}

/// The paths in pasted text, as a terminal pastes dragged-and-dropped files.
pub fn dropped_path_candidates(text: &str) -> (r: Vec<String>)
    ensures
        r@.map_values(|x: String| x@) == spec_dropped_from(text@, 0),
{
    let v = chars_of(text);
    let mut out: Vec<String> = Vec::new();
    let mut i: usize = 0;
    let ghost total = spec_dropped_from(v@, 0);
    assert(total =~= Seq::<Seq<char>>::empty() + spec_dropped_from(v@, 0));
    loop
        invariant
            i <= v@.len(),
            v@ == text@,
            total == spec_dropped_from(v@, 0),
            total =~= out@.map_values(|x: String| x@) + spec_dropped_from(v@, i as int),
        decreases v@.len() - i,
    {
        let ghost before = out@.map_values(|x: String| x@);
        let a = ws_end_exec(&v, i);
        if a >= v.len() {
            assert(spec_dropped_from(v@, i as int) =~= Seq::<Seq<char>>::empty());
            assert(total =~= out@.map_values(|x: String| x@));
            return out;
        }
        if v[a] == '\'' || v[a] == '"' {
            let q = v[a];
            let e = find_from_exec(&v, a + 1, q);
            let nxt = skip_char_exec(&v, e, q);
            let raw = sub_vec(&v, a + 1, e);
            let tok = bare_path(&raw);
            out.push(tok);
            assert(out@.map_values(|x: String| x@) =~= before.push(tok@));
            assert(total =~= out@.map_values(|x: String| x@) + spec_dropped_from(v@, nxt as int));
            i = nxt;
        } else {
            let e = find_from_exec(&v, a, ' ');
            if e <= a {
                let empty: Vec<char> = Vec::new();
                let tok = bare_path(&empty);
                out.push(tok);
                assert(out@.map_values(|x: String| x@) =~= before.push(tok@));
                assert(empty@ =~= Seq::<char>::empty());
                return out;
            }
            let raw = sub_vec(&v, a, e);
            let tok = bare_path(&raw);
            out.push(tok);
            assert(out@.map_values(|x: String| x@) =~= before.push(tok@));
            assert(total =~= out@.map_values(|x: String| x@) + spec_dropped_from(v@, e as int));
            i = e;
        }
    }
}

/// Whether every path named in a paste counts as a dropped file: one pair of
/// flags per path, each path absolute (`absolute[i]`) and naming an existing
/// regular file (`is_file[i]`).
pub open spec fn all_accepted(paths: Seq<Seq<char>>, absolute: Seq<bool>, is_file: Seq<bool>) -> bool {
    &&& absolute.len() == paths.len()
    &&& is_file.len() == paths.len()
    &&& forall|i: int| 0 <= i < paths.len() ==> absolute[i] && is_file[i]
}

/// The dropped files in pasted text: all the paths it names when every one
/// of them is absolute and names an existing file (`absolute[i]` and
/// `is_file[i]` tell this of path `i`), and none otherwise, also when the
/// flags do not match the paths one for one.
pub fn extract_dropped_paths(text: &str, absolute: &Vec<bool>, is_file: &Vec<bool>) -> (r: Vec<String>)
    ensures
        all_accepted(spec_dropped_from(text@, 0), absolute@, is_file@)
            ==> r@.map_values(|x: String| x@) == spec_dropped_from(text@, 0),
        !all_accepted(spec_dropped_from(text@, 0), absolute@, is_file@) ==> r@.len() == 0,
        forall|i: int| 0 <= i < r@.len() ==> i < absolute@.len() && absolute@[i] && i < is_file@.len() && is_file@[i],
{
    let c = dropped_path_candidates(text);
    if absolute.len() != c.len() || is_file.len() != c.len() {
        return Vec::new();
    }
    let mut i: usize = 0;
    while i < c.len()
        invariant
            i <= c@.len(),
            absolute@.len() == c@.len(),
            is_file@.len() == c@.len(),
            forall|k: int| 0 <= k < i ==> absolute@[k] && is_file@[k],
        decreases c@.len() - i,
    {
        if !absolute[i] || !is_file[i] {
            return Vec::new();
        }
        i += 1;
    }
    c
}

/// `c` is an ASCII hexadecimal digit (either case) of value `v`.
pub open spec fn hex_digit_of(c: char, v: u32) -> bool {
    (c as u32) < 128 && hex_value(c as u8) == Some(v)
}

/// `t` writes the text `s`, each character either as itself or as a `%`
/// escape of two hex digits of its code; a `%` is always escaped.
pub open spec fn is_percent_encoding_of(t: Seq<char>, s: Seq<char>) -> bool
    decreases s.len(),
{
    if s.len() == 0 {
        t.len() == 0
    } else {
        let x = s[0] as u32;
        ||| (s[0] != '%' && t.len() >= 1 && t[0] == s[0] && is_percent_encoding_of(t.drop_first(), s.drop_first()))
        ||| (t.len() >= 3 && t[0] == '%' && hex_digit_of(t[1], x / 16) && hex_digit_of(t[2], x % 16)
            && is_percent_encoding_of(t.skip(3), s.drop_first()))
    }
}

/// The bytes of an ASCII character sequence.
pub open spec fn ascii_bytes(t: Seq<char>) -> Seq<u8> {
    t.map_values(|c: char| c as u8)
}

proof fn lemma_decode_encoding(t: Seq<char>, s: Seq<char>)
    requires
        vstd::utf8::is_ascii_chars(s),
        is_percent_encoding_of(t, s),
    ensures
        vstd::utf8::is_ascii_chars(t),
        spec_percent_decode_bytes(ascii_bytes(t)) == s,
    decreases s.len(),
{
    let bt = ascii_bytes(t);
    if s.len() == 0 {
        assert(bt.len() == 0);
    } else {
        assert(vstd::utf8::is_ascii_chars(s.drop_first()));
        let x = s[0] as u32;
        assert(x < 128);
        if s[0] != '%' && t.len() >= 1 && t[0] == s[0] && is_percent_encoding_of(t.drop_first(), s.drop_first()) {
            lemma_decode_encoding(t.drop_first(), s.drop_first());
            assert(bt.drop_first() =~= ascii_bytes(t.drop_first()));
            assert(bt[0] != 37);
            assert((bt[0] as char) == s[0]);
            assert(seq![s[0]] + s.drop_first() =~= s);
            assert forall|i: int| 0 <= i < t.len() implies '\0' <= #[trigger] t[i] <= '\u{7f}' by {
                if i > 0 {
                    assert(t[i] == t.drop_first()[i - 1]);
                    assert('\0' <= t.drop_first()[i - 1] <= '\u{7f}');
                } else {
                    assert('\0' <= s[0] <= '\u{7f}');
                }
            }
        } else {
            assert(t.len() >= 3 && t[0] == '%' && hex_digit_of(t[1], x / 16) && hex_digit_of(t[2], x % 16)
                && is_percent_encoding_of(t.skip(3), s.drop_first()));
            lemma_decode_encoding(t.skip(3), s.drop_first());
            let rest = if bt.len() > 3 { bt.skip(3) } else { Seq::<u8>::empty() };
            assert(rest =~= ascii_bytes(t.skip(3)));
            assert(bt[0] == 37);
            assert(hex_value(bt[1]) == Some(x / 16));
            assert(hex_value(bt[2]) == Some(x % 16));
            assert((x / 16) * 16 + x % 16 == x);
            assert((((x / 16) * 16 + x % 16) as u8) as char == s[0]);
            assert(seq![s[0]] + s.drop_first() =~= s);
            assert forall|i: int| 0 <= i < t.len() implies '\0' <= #[trigger] t[i] <= '\u{7f}' by {
                if i >= 3 {
                    assert(t[i] == t.skip(3)[i - 3]);
                    assert('\0' <= t.skip(3)[i - 3] <= '\u{7f}');
                } else if i >= 1 {
                    assert(hex_digit_of(t[i], if i == 1 { x / 16 } else { x % 16 }));
                    assert((t[i] as u32) < 128);
                    vstd::utf8::char_u32_cast(t[i], t[i] as u32);
                }
            }
        }
    }
}

/// Decoding gives back an ASCII text from any way of writing it with `%`
/// escapes: some characters, and every `%`, escaped with hex digits in
/// either case.
pub proof fn law_percent_decode_round_trip(s: Seq<char>, t: Seq<char>)
    requires
        vstd::utf8::is_ascii_chars(s),
        is_percent_encoding_of(t, s),
    ensures
        spec_percent_decode(t) == s,
{
    lemma_decode_encoding(t, s);
    vstd::utf8::is_ascii_chars_encode_utf8(t);
    assert(vstd::utf8::encode_utf8(t) =~= ascii_bytes(t));
}

} // verus!
