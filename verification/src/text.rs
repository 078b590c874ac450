//! Character-level text utilities shared by the renderers: conversions
//! between strings and characters, truncation with an ellipsis, HTML tag
//! stripping, word wrapping and decimal formatting.

use vstd::prelude::*;

verus! {

/// `String::push` appends one character to the end of the string.
pub assume_specification[ String::push ](s: &mut String, ch: char)
    ensures
        final(s)@ == old(s)@.push(ch),
;

/// The character that marks a shortened text.
pub open spec fn ellipsis() -> char {
    '\u{2026}'
}

/// The view of an optional string.
pub open spec fn opt_view(o: Option<String>) -> Option<Seq<char>> {
    match o {
        Some(s) => Some(s@),
        None => None,
    }
}

/// The text of an optional string, or `fallback` where there is none.
pub open spec fn or_text(o: Option<String>, fallback: Seq<char>) -> Seq<char> {
    match o {
        Some(s) => s@,
        None => fallback,
    }
}

/// The characters of `s`, in order.
pub fn chars_of(s: &str) -> (v: Vec<char>)
    ensures
        v@ == s@,
{
    let mut v: Vec<char> = Vec::new();
    for c in it: s.chars()
        invariant
            v@ == it.seq().take(it.index() as int),
            it.seq() == s@,
    {
        v.push(c);
    }
    v
}

/// Appends the characters `cs[from..to]` to `out`.
pub fn push_chars(out: &mut String, cs: &Vec<char>, from: usize, to: usize)
    requires
        from <= to <= cs@.len(),
    ensures
        final(out)@ == old(out)@ + cs@.subrange(from as int, to as int),
{
    let mut i = from;
    while i < to
        invariant
            from <= i <= to <= cs@.len(),
            out@ == old(out)@ + cs@.subrange(from as int, i as int),
        decreases to - i,
    {
        out.push(cs[i]);
        assert(cs@.subrange(from as int, i + 1) == cs@.subrange(from as int, i as int).push(
            cs@[i as int],
        ));
        i = i + 1;
    }
}

/// A string made of the characters of `cs`.
pub fn string_of(cs: &Vec<char>) -> (r: String)
    ensures
        r@ == cs@,
{
    let mut r = String::new();
    push_chars(&mut r, cs, 0, cs.len());
    assert(cs@.subrange(0, cs@.len() as int) == cs@);
    r
}

/// A fresh string holding the text of `s`.
pub fn owned(s: &str) -> (r: String)
    ensures
        r@ == s@,
{
    let cs = chars_of(s);
    string_of(&cs)
}

/// Whether the two texts are equal.
pub fn str_eq(a: &str, b: &str) -> (r: bool)
    ensures
        r == (a@ == b@),
{
    let x = chars_of(a);
    let y = chars_of(b);
    if x.len() != y.len() {
        return false;
    }
    let mut i: usize = 0;
    while i < x.len()
        invariant
            x@ == a@,
            y@ == b@,
            x@.len() == y@.len(),
            i <= x@.len(),
            forall|j: int| 0 <= j < i ==> x@[j] == y@[j],
        decreases x@.len() - i,
    {
        if x[i] != y[i] {
            return false;
        }
        i = i + 1;
    }
    assert(x@ =~= y@);
    true
}

/// Whether the optional string is present and equal to `b`.
pub fn opt_str_eq(a: &Option<String>, b: &str) -> (r: bool)
    ensures
        r == (opt_view(*a) == Some(b@)),
{
    match a {
        Some(s) => str_eq(s.as_str(), b),
        None => false,
    }
}

/// The text of an optional string, or `fallback` where there is none.
pub fn or_dash(o: &Option<String>, fallback: &str) -> (r: String)
    ensures
        r@ == or_text(*o, fallback@),
{
    match o {
        Some(s) => s.clone(),
        None => owned(fallback),
    }
}

/* ---------------------------------------------------------------------- */
/*  Truncation                                                             */
/* ---------------------------------------------------------------------- */

/// `s` unchanged when it has at most `max` characters; otherwise its first
/// `max - 1` characters (none when `max` is 0) followed by an ellipsis.
pub open spec fn truncated(s: Seq<char>, max: nat) -> Seq<char> {
    if s.len() <= max {
        s
    } else {
        s.take(if max == 0 { 0 } else { max - 1 }).push(ellipsis())
    }
}

/// Shortens `s` to at most `max` characters, marking a cut with an ellipsis.
pub fn truncate(s: &str, max: usize) -> (r: String)
    ensures
        r@ == truncated(s@, max as nat),
{
    let cs = chars_of(s);
    if cs.len() <= max {
        string_of(&cs)
    } else {
        let keep: usize = if max == 0 {
            0
        } else {
            max - 1
        };
        let mut r = String::new();
        push_chars(&mut r, &cs, 0, keep);
        r.push('\u{2026}');
        assert(cs@.subrange(0, keep as int) == cs@.take(keep as int));
        r
    }
}

/// Truncating twice to the same width gives what truncating once gives.
pub proof fn lemma_truncate_idempotent(s: Seq<char>, max: nat)
    ensures
        truncated(truncated(s, max), max) == truncated(s, max),
{
    let t = truncated(s, max);
    if s.len() > max {
        if max == 0 {
            assert(t.len() == 1);
            assert(truncated(t, max) =~= t.take(0).push(ellipsis()));
            assert(t =~= seq![ellipsis()]);
        } else {
            assert(t.len() == max);
        }
    }
}

/// A truncated text has at most `max` characters, except that truncating a
/// non-empty text to width 0 leaves the ellipsis alone.
pub proof fn lemma_truncate_width(s: Seq<char>, max: nat)
    ensures
        truncated(s, max).len() <= if max == 0 && s.len() > 0 {
            1
        } else {
            max
        },
{
}

/* ---------------------------------------------------------------------- */
/*  HTML tag stripping                                                     */
/* ---------------------------------------------------------------------- */

/// The characters of `s` outside angle-bracket tags, scanning from the left
/// with `in_tag` telling whether a tag is open: `<` opens a tag, `>` closes
/// one, and neither bracket is kept.
pub open spec fn strip_from(s: Seq<char>, in_tag: bool) -> Seq<char>
    decreases s.len(),
{
    if s.len() == 0 {
        Seq::empty()
    } else {
        let c = s[0];
        let rest = s.drop_first();
        if c == '<' {
            strip_from(rest, true)
        } else if c == '>' {
            strip_from(rest, false)
        } else if !in_tag {
            seq![c] + strip_from(rest, false)
        } else {
            strip_from(rest, true)
        }
    }
}

/// The text of `s` with its HTML tags removed.
pub open spec fn stripped(s: Seq<char>) -> Seq<char> {
    strip_from(s, false)
}

/// Removes everything between `<` and `>` (both included) from `s`.
pub fn strip_html(s: &str) -> (r: String)
    ensures
        r@ == stripped(s@),
{
    let cs = chars_of(s);
    let mut out = String::new();
    let mut in_tag = false;
    let mut i: usize = 0;
    assert(cs@.skip(0) =~= cs@);
    assert(out@ + stripped(s@) =~= stripped(s@));
    while i < cs.len()
        invariant
            cs@ == s@,
            i <= cs@.len(),
            out@ + strip_from(cs@.skip(i as int), in_tag) == stripped(s@),
        decreases cs@.len() - i,
    {
        let c = cs[i];
        let ghost before = out@;
        assert(cs@.skip(i as int).drop_first() == cs@.skip(i + 1));
        assert(cs@.skip(i as int)[0] == c);
        if c == '<' {
            in_tag = true;
        } else if c == '>' {
            in_tag = false;
        } else if !in_tag {
            out.push(c);
            assert(before.push(c) + strip_from(cs@.skip(i + 1), false) =~= before + (seq![c]
                + strip_from(cs@.skip(i + 1), false)));
        }
        i = i + 1;
    }
    assert(cs@.skip(i as int) =~= Seq::<char>::empty());
    assert(out@ + Seq::<char>::empty() =~= out@);
    out
}

/// Whether `s` holds neither `<` nor `>`.
pub open spec fn bracket_free(s: Seq<char>) -> bool {
    forall|i: int| 0 <= i < s.len() ==> s[i] != '<' && s[i] != '>'
}

proof fn lemma_strip_from_bracket_free(s: Seq<char>, in_tag: bool)
    ensures
        bracket_free(strip_from(s, in_tag)),
    decreases s.len(),
{
    if s.len() > 0 {
        lemma_strip_from_bracket_free(s.drop_first(), true);
        lemma_strip_from_bracket_free(s.drop_first(), false);
        let c = s[0];
        if c != '<' && c != '>' && !in_tag {
            let t = strip_from(s.drop_first(), false);
            assert forall|i: int| 0 <= i < (seq![c] + t).len() implies (seq![c] + t)[i] != '<'
                && (seq![c] + t)[i] != '>' by {
                if i > 0 {
                    assert((seq![c] + t)[i] == t[i - 1]);
                }
            }
        }
    }
}

proof fn lemma_strip_bracket_free_unchanged(s: Seq<char>)
    requires
        bracket_free(s),
    ensures
        strip_from(s, false) == s,
    decreases s.len(),
{
    if s.len() > 0 {
        assert(bracket_free(s.drop_first())) by {
            assert forall|i: int| 0 <= i < s.drop_first().len() implies s.drop_first()[i] != '<'
                && s.drop_first()[i] != '>' by {
                assert(s.drop_first()[i] == s[i + 1]);
            }
        }
        lemma_strip_bracket_free_unchanged(s.drop_first());
        assert(s =~= seq![s[0]] + s.drop_first());
    }
}

/// What remains after stripping holds no angle bracket, and stripping it
/// again changes nothing.
pub proof fn lemma_strip_html_laws(s: Seq<char>)
    ensures
        bracket_free(stripped(s)),
        stripped(stripped(s)) == stripped(s),
{
    lemma_strip_from_bracket_free(s, false);
    lemma_strip_bracket_free_unchanged(stripped(s));
}

/// A text without angle brackets is left as it is.
pub proof fn lemma_strip_html_plain(s: Seq<char>)
    requires
        bracket_free(s),
    ensures
        stripped(s) == s,
{
    lemma_strip_bracket_free_unchanged(s);
}

/* ---------------------------------------------------------------------- */
/*  Decimal formatting                                                     */
/* ---------------------------------------------------------------------- */

/// The decimal digit character for `d < 10`.
pub open spec fn digit_char(d: nat) -> char {
    (d + 48) as char
}

/// The decimal representation of `n`, without sign or leading zeros.
pub open spec fn decimal(n: nat) -> Seq<char>
    decreases n,
{
    if n < 10 {
        seq![digit_char(n)]
    } else {
        decimal(n / 10).push(digit_char(n % 10))
    }
}

/// The number that a string of decimal digits denotes.
pub open spec fn decimal_value(s: Seq<char>) -> nat
    decreases s.len(),
{
    if s.len() == 0 {
        0
    } else {
        decimal_value(s.drop_last()) * 10 + ((s.last() as nat) - 48) as nat
    }
}

/// Whether every character of `s` is an ASCII digit.
pub open spec fn all_digits(s: Seq<char>) -> bool {
    forall|i: int| 0 <= i < s.len() ==> '0' <= #[trigger] s[i] <= '9'
}

fn push_decimal(out: &mut String, n: u64)
    ensures
        final(out)@ == old(out)@ + decimal(n as nat),
    decreases n,
{
    if n >= 10 {
        push_decimal(out, n / 10);
    }
    let d: u64 = n % 10;
    let c: char = ((d as u8) + 48u8) as char;
    assert(c == digit_char(d as nat));
    out.push(c);
    assert(out@ =~= old(out)@ + decimal(n as nat));
}

/// The decimal representation of `n`.
pub fn decimal_string(n: u64) -> (r: String)
    ensures
        r@ == decimal(n as nat),
{
    let mut r = String::new();
    push_decimal(&mut r, n);
    assert(r@ =~= decimal(n as nat));
    r
}

/// A decimal representation is a non-empty string of digits, without a
/// leading zero unless it is "0", and it reads back as the number itself.
pub proof fn lemma_decimal_round_trip(n: nat)
    ensures
        decimal(n).len() > 0,
        all_digits(decimal(n)),
        decimal(n)[0] == '0' ==> n == 0,
        decimal_value(decimal(n)) == n,
    decreases n,
{
    if n >= 10 {
        lemma_decimal_round_trip(n / 10);
        let p = decimal(n / 10);
        assert(decimal(n).drop_last() =~= p);
        assert(decimal(n)[0] == p[0]);
        assert forall|i: int| 0 <= i < decimal(n).len() implies '0' <= #[trigger] decimal(n)[i]
            <= '9' by {
            if i < p.len() {
                assert(decimal(n)[i] == p[i]);
            }
        }
        assert(n == (n / 10) * 10 + n % 10);
        assert((digit_char(n % 10) as nat) == n % 10 + 48);
        assert(decimal(n).last() == digit_char(n % 10));
    } else {
        assert((digit_char(n) as nat) == n + 48);
        assert(decimal(n).drop_last() =~= Seq::<char>::empty());
        assert(decimal_value(Seq::<char>::empty()) == 0);
    }
}

/* ---------------------------------------------------------------------- */
/*  Word wrapping                                                          */
/* ---------------------------------------------------------------------- */

/// Whether `c` has the Unicode White_Space property.
pub open spec fn is_white(c: char) -> bool {
    let v = c as u32;
    ||| 0x09 <= v <= 0x0D
    ||| v == 0x20
    ||| v == 0x85
    ||| v == 0xA0
    ||| v == 0x1680
    ||| 0x2000 <= v <= 0x200A
    ||| v == 0x2028
    ||| v == 0x2029
    ||| v == 0x202F
    ||| v == 0x205F
    ||| v == 0x3000
}

/// Whether `c` has the Unicode White_Space property.
pub fn is_white_char(c: char) -> (r: bool)
    ensures
        r == is_white(c),
{
    let v: u32 = c as u32;
    (0x09 <= v && v <= 0x0D) || v == 0x20 || v == 0x85 || v == 0xA0 || v == 0x1680 || (0x2000
        <= v && v <= 0x200A) || v == 0x2028 || v == 0x2029 || v == 0x202F || v == 0x205F || v
        == 0x3000
}

/// The number of bytes of the UTF-8 encoding of `s`.
pub open spec fn byte_len(s: Seq<char>) -> nat {
    vstd::utf8::encode_utf8(s).len()
}

proof fn lemma_encode_utf8_push(s: Seq<char>, c: char)
    ensures
        vstd::utf8::encode_utf8(s.push(c)) == vstd::utf8::encode_utf8(s)
            + vstd::utf8::encode_scalar(c as u32),
    decreases s.len(),
{
    if s.len() == 0 {
        assert(s.push(c).drop_first() =~= Seq::<char>::empty());
        assert(vstd::utf8::encode_utf8(Seq::<char>::empty()) =~= Seq::<u8>::empty());
        assert(vstd::utf8::encode_utf8(s.push(c)) =~= vstd::utf8::encode_scalar(c as u32));
    } else {
        lemma_encode_utf8_push(s.drop_first(), c);
        assert(s.push(c).drop_first() =~= s.drop_first().push(c));
        assert(s.push(c)[0] == s[0]);
    }
}

/// The number of bytes of the UTF-8 encoding of `c`.
pub fn utf8_width(c: char) -> (n: u8)
    ensures
        n as nat == vstd::utf8::encode_scalar(c as u32).len(),
        1 <= n <= 4,
{
    proof {
        vstd::utf8::char_is_scalar(c);
    }
    let v: u32 = c as u32;
    if v <= 0x7F {
        1
    } else if v <= 0x7FF {
        2
    } else if v <= 0xFFFF {
        3
    } else {
        4
    }
}

/// The whitespace-separated words of `s`, scanning from the left with the
/// word `cur` already begun; no word is empty.
pub open spec fn words_from(s: Seq<char>, cur: Seq<char>) -> Seq<Seq<char>>
    decreases s.len(),
{
    if s.len() == 0 {
        if cur.len() > 0 {
            seq![cur]
        } else {
            Seq::empty()
        }
    } else if is_white(s[0]) {
        (if cur.len() > 0 {
            seq![cur]
        } else {
            Seq::<Seq<char>>::empty()
        }) + words_from(s.drop_first(), Seq::empty())
    } else {
        words_from(s.drop_first(), cur.push(s[0]))
    }
}

/// The whitespace-separated words of `s`.
pub open spec fn words(s: Seq<char>) -> Seq<Seq<char>> {
    words_from(s, Seq::empty())
}

/// Whether word `w` goes to a new line, the current line being `line` bytes
/// long.
pub open spec fn breaks_before(w: Seq<char>, width: int, line: int) -> bool {
    line + byte_len(w) + 1 > width && line > 0
}

/// The text that places word `w` on a line that is `line` bytes long.
pub open spec fn place_text(w: Seq<char>, width: int, line: int) -> Seq<char> {
    let brk = breaks_before(w, width, line);
    let l1 = if brk {
        0
    } else {
        line
    };
    (if brk {
        seq!['\n']
    } else {
        Seq::empty()
    }) + (if l1 > 0 {
        seq![' ']
    } else {
        Seq::empty()
    }) + w
}

/// The length in bytes of the line after word `w` is placed on a line that
/// was `line` bytes long.
pub open spec fn place_line(w: Seq<char>, width: int, line: int) -> int {
    let l1 = if breaks_before(w, width, line) {
        0
    } else {
        line
    };
    (if l1 > 0 {
        l1 + 1
    } else {
        l1
    }) + byte_len(w)
}

/// The words `ws` laid out greedily on lines of at most `width` bytes, a
/// line being `line` bytes long already: words on a line are separated by one
/// space, and a word that does not fit starts a new line (a word longer than
/// the width stands alone on its line).
pub open spec fn wrap_words(ws: Seq<Seq<char>>, width: int, line: int) -> Seq<char>
    decreases ws.len(),
{
    if ws.len() == 0 {
        Seq::empty()
    } else {
        place_text(ws[0], width, line) + wrap_words(
            ws.drop_first(),
            width,
            place_line(ws[0], width, line),
        )
    }
}

/// The words of `s` laid out on lines of at most `width` bytes.
pub open spec fn wrapped(s: Seq<char>, width: nat) -> Seq<char> {
    wrap_words(words(s), width as int, 0)
}

proof fn lemma_wrap_words_cons(w: Seq<char>, rest: Seq<Seq<char>>, width: int, line: int)
    ensures
        wrap_words(seq![w] + rest, width, line) == place_text(w, width, line) + wrap_words(
            rest,
            width,
            place_line(w, width, line),
        ),
{
    assert((seq![w] + rest)[0] == w);
    assert((seq![w] + rest).drop_first() =~= rest);
}

fn place_word(out: &mut String, line: u128, word: &Vec<char>, wbytes: u128, width: usize)
    -> (new_line: u128)
    requires
        wbytes == byte_len(word@),
        line + wbytes + 2 < u128::MAX,
    ensures
        final(out)@ == old(out)@ + place_text(word@, width as int, line as int),
        new_line == place_line(word@, width as int, line as int),
{
    let mut l = line;
    if l + wbytes + 1 > width as u128 && l > 0 {
        out.push('\n');
        l = 0;
    }
    if l > 0 {
        out.push(' ');
        l = l + 1;
    }
    push_chars(out, word, 0, word.len());
    assert(word@.subrange(0, word@.len() as int) =~= word@);
    assert(out@ =~= old(out)@ + place_text(word@, width as int, line as int));
    l + wbytes
}

/// Lays out the words of `s` on lines of at most `width` bytes (see
/// `wrapped`).
pub fn wrap(s: &str, width: usize) -> (r: String)
    ensures
        r@ == wrapped(s@, width as nat),
{
    let cs = chars_of(s);
    let mut out = String::new();
    let mut line: u128 = 0;
    let mut cur: Vec<char> = Vec::new();
    let mut cur_bytes: u128 = 0;
    let mut i: usize = 0;
    assert(cs@.skip(0) =~= cs@);
    assert(out@ + wrapped(s@, width as nat) =~= wrapped(s@, width as nat));
    while i < cs.len()
        invariant
            cs@ == s@,
            i <= cs@.len(),
            cur_bytes == byte_len(cur@),
            line + cur_bytes + (if line > 0 {
                1int
            } else {
                0int
            }) <= 4 * i,
            out@ + wrap_words(words_from(cs@.skip(i as int), cur@), width as int, line as int)
                == wrapped(s@, width as nat),
        decreases cs@.len() - i,
    {
        let c = cs[i];
        assert(cs@.skip(i as int).drop_first() == cs@.skip(i + 1));
        assert(cs@.skip(i as int)[0] == c);
        if is_white_char(c) {
            if cur.len() > 0 {
                proof {
                    lemma_wrap_words_cons(
                        cur@,
                        words_from(cs@.skip(i + 1), Seq::empty()),
                        width as int,
                        line as int,
                    );
                }
                assert(words_from(cs@.skip(i as int), cur@) == seq![cur@] + words_from(
                    cs@.skip(i + 1),
                    Seq::empty(),
                ));
                line = place_word(&mut out, line, &cur, cur_bytes, width);
                cur = Vec::new();
                cur_bytes = 0;
                assert(cur@ == Seq::<char>::empty());
                assert(out@ + wrap_words(words_from(cs@.skip(i + 1), cur@), width as int, line as int)
                == wrapped(s@, width as nat));
            } else {
                assert(cur@ =~= Seq::<char>::empty());
                assert(Seq::<Seq<char>>::empty() + words_from(cs@.skip(i + 1), Seq::empty())
                    =~= words_from(cs@.skip(i + 1), Seq::empty()));
            }
        } else {
            proof {
                lemma_encode_utf8_push(cur@, c);
            }
            let w = utf8_width(c);
            assert(words_from(cs@.skip(i as int), cur@) == words_from(cs@.skip(i + 1), cur@.push(c)));
            cur.push(c);
            cur_bytes = cur_bytes + w as u128;
            assert(out@ + wrap_words(words_from(cs@.skip(i + 1), cur@), width as int, line as int)
                == wrapped(s@, width as nat));
        }
        i = i + 1;
    }
    assert(cs@.skip(i as int) =~= Seq::<char>::empty());
    if cur.len() > 0 {
        proof {
            lemma_wrap_words_cons(cur@, Seq::empty(), width as int, line as int);
        }
        assert(seq![cur@] + Seq::<Seq<char>>::empty() =~= seq![cur@]);
        line = place_word(&mut out, line, &cur, cur_bytes, width);
    }
    assert(out@ + Seq::<char>::empty() =~= out@);
    out
}

/// Whether `s` holds no whitespace.
pub open spec fn white_free(s: Seq<char>) -> bool {
    forall|i: int| 0 <= i < s.len() ==> !is_white(#[trigger] s[i])
}

/// Whether every word of `ws` is non-empty and free of whitespace.
pub open spec fn proper_words(ws: Seq<Seq<char>>) -> bool {
    forall|i: int| 0 <= i < ws.len() ==> #[trigger] ws[i].len() > 0 && white_free(ws[i])
}

/// Whether `s` is empty or starts with whitespace.
pub open spec fn starts_white(s: Seq<char>) -> bool {
    s.len() == 0 || is_white(s[0])
}

proof fn lemma_words_from_proper(s: Seq<char>, cur: Seq<char>)
    requires
        white_free(cur),
    ensures
        proper_words(words_from(s, cur)),
    decreases s.len(),
{
    if s.len() > 0 {
        if is_white(s[0]) {
            lemma_words_from_proper(s.drop_first(), Seq::empty());
            let head = if cur.len() > 0 {
                seq![cur]
            } else {
                Seq::<Seq<char>>::empty()
            };
            let t = words_from(s.drop_first(), Seq::empty());
            assert forall|i: int| 0 <= i < (head + t).len() implies #[trigger] (head + t)[i].len()
                > 0 && white_free((head + t)[i]) by {
                if i >= head.len() {
                    assert((head + t)[i] == t[i - head.len()]);
                }
            }
        } else {
            assert(white_free(cur.push(s[0]))) by {
                assert forall|i: int| 0 <= i < cur.push(s[0]).len() implies !is_white(
                    #[trigger] cur.push(s[0])[i],
                ) by {
                    if i < cur.len() {
                        assert(cur.push(s[0])[i] == cur[i]);
                    }
                }
            }
            lemma_words_from_proper(s.drop_first(), cur.push(s[0]));
        }
    }
}

proof fn lemma_words_from_word(w: Seq<char>, t: Seq<char>, cur: Seq<char>)
    requires
        (cur + w).len() > 0,
        white_free(cur + w),
        starts_white(t),
    ensures
        words_from(w + t, cur) == seq![cur + w] + words_from(t, Seq::empty()),
    decreases w.len(),
{
    if w.len() == 0 {
        assert(w + t =~= t);
        assert(cur + w =~= cur);
        if t.len() == 0 {
            assert(seq![cur] + Seq::<Seq<char>>::empty() =~= seq![cur]);
        }
    } else {
        assert((w + t)[0] == w[0]);
        assert(!is_white((cur + w)[cur.len() as int]));
        assert((w + t).drop_first() =~= w.drop_first() + t);
        assert(cur.push(w[0]) + w.drop_first() =~= cur + w);
        lemma_words_from_word(w.drop_first(), t, cur.push(w[0]));
    }
}

proof fn lemma_words_from_skip_white(sep: Seq<char>, t: Seq<char>)
    requires
        forall|i: int| 0 <= i < sep.len() ==> is_white(#[trigger] sep[i]),
    ensures
        words_from(sep + t, Seq::empty()) == words_from(t, Seq::empty()),
    decreases sep.len(),
{
    if sep.len() == 0 {
        assert(sep + t =~= t);
    } else {
        assert((sep + t)[0] == sep[0]);
        assert((sep + t).drop_first() =~= sep.drop_first() + t);
        assert(Seq::<Seq<char>>::empty() + words_from(sep.drop_first() + t, Seq::empty())
            =~= words_from(sep.drop_first() + t, Seq::empty()));
        assert forall|i: int| 0 <= i < sep.drop_first().len() implies is_white(
            #[trigger] sep.drop_first()[i],
        ) by {
            assert(sep.drop_first()[i] == sep[i + 1]);
        }
        lemma_words_from_skip_white(sep.drop_first(), t);
    }
}

proof fn lemma_byte_len_positive(w: Seq<char>)
    requires
        w.len() > 0,
    ensures
        byte_len(w) > 0,
{
    vstd::utf8::char_is_scalar(w[0]);
}

proof fn lemma_wrap_words_starts_white(ws: Seq<Seq<char>>, width: int, line: int)
    requires
        line > 0,
    ensures
        starts_white(wrap_words(ws, width, line)),
{
    if ws.len() > 0 {
        let w = ws[0];
        let brk = breaks_before(w, width, line);
        let t = wrap_words(ws.drop_first(), width, place_line(w, width, line));
        if brk {
            assert(place_text(w, width, line)[0] == '\n');
            assert((place_text(w, width, line) + t)[0] == '\n');
        } else {
            assert(place_text(w, width, line)[0] == ' ');
            assert((place_text(w, width, line) + t)[0] == ' ');
        }
    }
}

proof fn lemma_words_of_wrap_words(ws: Seq<Seq<char>>, width: int, line: int)
    requires
        proper_words(ws),
        line >= 0,
    ensures
        words_from(wrap_words(ws, width, line), Seq::empty()) == ws,
    decreases ws.len(),
{
    if ws.len() == 0 {
        assert(ws =~= Seq::<Seq<char>>::empty());
    } else {
        let w = ws[0];
        assert(w.len() > 0 && white_free(w));
        let brk = breaks_before(w, width, line);
        let l1 = if brk {
            0
        } else {
            line
        };
        let sep = (if brk {
            seq!['\n']
        } else {
            Seq::empty()
        }) + (if l1 > 0 {
            seq![' ']
        } else {
            Seq::empty()
        });
        let line2 = place_line(w, width, line);
        lemma_byte_len_positive(w);
        let t = wrap_words(ws.drop_first(), width, line2);
        lemma_wrap_words_starts_white(ws.drop_first(), width, line2);
        assert(proper_words(ws.drop_first())) by {
            assert forall|i: int| 0 <= i < ws.drop_first().len() implies #[trigger] ws.drop_first()[
                i
            ].len() > 0 && white_free(ws.drop_first()[i]) by {
                assert(ws.drop_first()[i] == ws[i + 1]);
            }
        }
        lemma_words_of_wrap_words(ws.drop_first(), width, line2);
        assert(wrap_words(ws, width, line) =~= sep + (w + t));
        assert forall|i: int| 0 <= i < sep.len() implies is_white(#[trigger] sep[i]) by {}
        lemma_words_from_skip_white(sep, w + t);
        assert(Seq::<char>::empty() + w =~= w);
        lemma_words_from_word(w, t, Seq::empty());
        assert(seq![w] + ws.drop_first() =~= ws);
    }
}

/// Wrapping changes only the whitespace between words: the words of the
/// wrapped text are the words of the input, in order.
pub proof fn lemma_wrap_keeps_words(s: Seq<char>, width: nat)
    ensures
        words(wrapped(s, width)) == words(s),
{
    assert(white_free(Seq::<char>::empty()));
    lemma_words_from_proper(s, Seq::empty());
    lemma_words_of_wrap_words(words(s), width as int, 0);
}

/// Whether `t` occurs in `s` starting at position `i`.
pub open spec fn occurs_at(s: Seq<char>, t: Seq<char>, i: int) -> bool {
    0 <= i && i + t.len() <= s.len() && s.subrange(i, i + t.len()) == t
}

/// Whether `t` occurs somewhere in `s`.
pub open spec fn occurs_in(s: Seq<char>, t: Seq<char>) -> bool {
    exists|i: int| occurs_at(s, t, i)
}

/// `t` occurs in `a + t + b`, right after `a`.
pub proof fn lemma_occurs_between(a: Seq<char>, t: Seq<char>, b: Seq<char>)
    ensures
        occurs_at(a + t + b, t, a.len() as int),
        occurs_in(a + t + b, t),
{
    assert((a + t + b).subrange(a.len() as int, (a.len() + t.len()) as int) =~= t);
}

proof fn lemma_strip_keeps_plain_prefix(a: Seq<char>, rest: Seq<char>)
    requires
        bracket_free(a),
    ensures
        strip_from(a + rest, false) == a + strip_from(rest, false),
    decreases a.len(),
{
    if a.len() == 0 {
        assert(a + rest =~= rest);
        assert(a + strip_from(rest, false) =~= strip_from(rest, false));
    } else {
        assert((a + rest)[0] == a[0]);
        assert((a + rest).drop_first() =~= a.drop_first() + rest);
        assert(bracket_free(a.drop_first())) by {
            assert forall|i: int| 0 <= i < a.drop_first().len() implies a.drop_first()[i] != '<'
                && a.drop_first()[i] != '>' by {
                assert(a.drop_first()[i] == a[i + 1]);
            }
        }
        lemma_strip_keeps_plain_prefix(a.drop_first(), rest);
        assert(seq![a[0]] + (a.drop_first() + strip_from(rest, false)) =~= a + strip_from(
            rest,
            false,
        ));
    }
}

proof fn lemma_strip_skips_tag_body(t: Seq<char>, rest: Seq<char>)
    requires
        forall|i: int| 0 <= i < t.len() ==> t[i] != '>',
    ensures
        strip_from(t + seq!['>'] + rest, true) == strip_from(rest, false),
    decreases t.len(),
{
    let u = t + seq!['>'] + rest;
    if t.len() == 0 {
        assert(u[0] == '>');
        assert(u.drop_first() =~= rest);
    } else {
        assert(u[0] == t[0]);
        assert(u.drop_first() =~= t.drop_first() + seq!['>'] + rest);
        assert forall|i: int| 0 <= i < t.drop_first().len() implies t.drop_first()[i] != '>' by {
            assert(t.drop_first()[i] == t[i + 1]);
        }
        lemma_strip_skips_tag_body(t.drop_first(), rest);
    }
}

/// Stripping removes a tag and nothing else: for text `a` and `b` without
/// brackets around a tag `<t>`, what remains is `a` followed by `b`, every
/// character of both kept (spaces next to the tag included).
pub proof fn lemma_strip_html_removes_only_tags(a: Seq<char>, t: Seq<char>, b: Seq<char>)
    requires
        bracket_free(a),
        bracket_free(b),
        forall|i: int| 0 <= i < t.len() ==> t[i] != '>',
    ensures
        stripped(a + seq!['<'] + t + seq!['>'] + b) == a + b,
        stripped(a + seq!['<'] + t + seq!['>'] + b) == stripped(a) + stripped(b),
{
    let rest = seq!['<'] + t + seq!['>'] + b;
    assert(a + seq!['<'] + t + seq!['>'] + b =~= a + rest);
    lemma_strip_keeps_plain_prefix(a, rest);
    assert(rest[0] == '<');
    assert(rest.drop_first() =~= t + seq!['>'] + b);
    lemma_strip_skips_tag_body(t, b);
    lemma_strip_bracket_free_unchanged(b);
    lemma_strip_bracket_free_unchanged(a);
}

/// Truncation keeps a text that fits and otherwise cuts it to exactly the
/// width: a prefix of the text followed by the ellipsis, `max` characters
/// in all (one for width 0).
pub proof fn lemma_truncate_shape(s: Seq<char>, max: nat)
    ensures
        s.len() <= max ==> truncated(s, max) == s,
        s.len() > max ==> truncated(s, max).len() == (if max == 0 {
            1
        } else {
            max
        }) && truncated(s, max).last() == ellipsis() && truncated(s, max).drop_last()
            == s.take(truncated(s, max).len() - 1),
{
    if s.len() > max {
        let t = truncated(s, max);
        assert(t.drop_last() =~= s.take(t.len() - 1));
    }
}

/* ---------------------------------------------------------------------- */
/*  Lines of a wrapped text                                                */
/* ---------------------------------------------------------------------- */

/// The lines of `s`: the pieces between its newline characters (one empty
/// line for the empty text).
pub open spec fn lines(s: Seq<char>) -> Seq<Seq<char>>
    decreases s.len(),
{
    if s.len() == 0 {
        seq![Seq::empty()]
    } else {
        let ls = lines(s.drop_last());
        if s.last() == '\n' {
            ls.push(Seq::empty())
        } else {
            ls.update(ls.len() - 1, ls.last().push(s.last()))
        }
    }
}

/// The first word of a line: the text up to its first space.
pub open spec fn first_word(x: Seq<char>) -> Seq<char>
    decreases x.len(),
{
    if x.len() == 0 {
        x
    } else if x[0] == ' ' {
        Seq::empty()
    } else {
        seq![x[0]] + first_word(x.drop_first())
    }
}

/// Whether the lines of `out` respect the width `width`: each line is at
/// most `width` bytes long unless it is a single word (holds no space), and
/// a line ends early only where the next line's first word would not have
/// fitted after it with a space.
pub open spec fn lines_fit(out: Seq<char>, width: int) -> bool {
    let ls = lines(out);
    &&& forall|i: int|
        0 <= i < ls.len() ==> byte_len(#[trigger] ls[i]) <= width || !ls[i].contains(' ')
    &&& forall|i: int|
        0 <= i < ls.len() - 1 ==> byte_len(#[trigger] ls[i]) + 1 + byte_len(first_word(ls[i + 1]))
            > width
}

proof fn lemma_lines_len(s: Seq<char>)
    ensures
        lines(s).len() >= 1,
    decreases s.len(),
{
    if s.len() > 0 {
        lemma_lines_len(s.drop_last());
    }
}

proof fn lemma_encode_utf8_concat(a: Seq<char>, b: Seq<char>)
    ensures
        byte_len(a + b) == byte_len(a) + byte_len(b),
    decreases b.len(),
{
    if b.len() == 0 {
        assert(a + b =~= a);
        assert(vstd::utf8::encode_utf8(b) =~= Seq::<u8>::empty());
    } else {
        let c = b.last();
        lemma_encode_utf8_concat(a, b.drop_last());
        assert(a + b =~= (a + b.drop_last()).push(c));
        assert(b =~= b.drop_last().push(c));
        lemma_encode_utf8_push(a + b.drop_last(), c);
        lemma_encode_utf8_push(b.drop_last(), c);
    }
}

proof fn lemma_byte_len_one(c: char)
    requires
        c == ' ' || c == '\n',
    ensures
        byte_len(seq![c]) == 1,
{
    lemma_encode_utf8_push(Seq::empty(), c);
    assert(Seq::<char>::empty().push(c) =~= seq![c]);
    assert(vstd::utf8::encode_utf8(Seq::<char>::empty()) =~= Seq::<u8>::empty());
}

proof fn lemma_lines_append(a: Seq<char>, w: Seq<char>)
    requires
        !w.contains('\n'),
    ensures
        lines(a + w) == lines(a).update(lines(a).len() - 1, lines(a).last() + w),
    decreases w.len(),
{
    lemma_lines_len(a);
    let la = lines(a);
    if w.len() == 0 {
        assert(a + w =~= a);
        assert(la.last() + w =~= la.last());
        assert(la.update(la.len() - 1, la.last()) =~= la);
    } else {
        let c = w.last();
        let w1 = w.drop_last();
        assert(!w1.contains('\n')) by {
            if w1.contains('\n') {
                let j = choose|j: int| 0 <= j < w1.len() && w1[j] == '\n';
                assert(w[j] == '\n');
            }
        }
        assert(w[w.len() - 1] == c);
        lemma_lines_append(a, w1);
        assert((a + w).drop_last() =~= a + w1);
        assert((a + w).last() == c);
        let l1 = la.update(la.len() - 1, la.last() + w1);
        assert(lines(a + w) == l1.update(l1.len() - 1, l1.last().push(c)));
        assert((la.last() + w1).push(c) =~= la.last() + w);
        assert(lines(a + w) =~= la.update(la.len() - 1, la.last() + w));
    }
}

proof fn lemma_lines_newline(a: Seq<char>, w: Seq<char>)
    requires
        !w.contains('\n'),
    ensures
        lines(a + seq!['\n'] + w) == lines(a).push(w),
{
    let an = a + seq!['\n'];
    assert(an.drop_last() =~= a);
    assert(an.last() == '\n');
    assert(lines(an) == lines(a).push(Seq::empty()));
    lemma_lines_append(an, w);
    assert(Seq::<char>::empty() + w =~= w);
    assert(lines(an).update(lines(an).len() - 1, lines(an).last() + w) =~= lines(a).push(w));
}

proof fn lemma_first_word_extend(x: Seq<char>, t: Seq<char>)
    ensures
        x.contains(' ') ==> first_word(x + t) == first_word(x),
        !x.contains(' ') ==> first_word(x) == x,
        !x.contains(' ') ==> first_word(x + seq![' '] + t) == x,
    decreases x.len(),
{
    if x.len() == 0 {
        assert(x + seq![' '] + t =~= seq![' '] + t);
        assert((seq![' '] + t)[0] == ' ');
    } else {
        let r = x.drop_first();
        lemma_first_word_extend(r, t);
        assert((x + t)[0] == x[0]);
        assert((x + t).drop_first() =~= r + t);
        assert((x + seq![' '] + t)[0] == x[0]);
        assert((x + seq![' '] + t).drop_first() =~= r + seq![' '] + t);
        if x[0] != ' ' {
            assert(x.contains(' ') ==> r.contains(' ')) by {
                if x.contains(' ') {
                    let j = choose|j: int| 0 <= j < x.len() && x[j] == ' ';
                    assert(r[j - 1] == ' ');
                }
            }
            assert(!x.contains(' ') ==> !r.contains(' ')) by {
                if r.contains(' ') {
                    let j = choose|j: int| 0 <= j < r.len() && r[j] == ' ';
                    assert(x[j + 1] == ' ');
                }
            }
            assert(seq![x[0]] + r =~= x);
        } else {
            assert(x.contains(' ')) by {
                assert(x[0] == ' ');
            }
        }
    }
}

/// What holds of the text laid out so far, the last line being `line`
/// bytes long.
spec fn layout_state(acc: Seq<char>, width: int, line: int) -> bool {
    &&& lines_fit(acc, width)
    &&& byte_len(lines(acc).last()) == line
    &&& line == 0 ==> acc.len() == 0
}

proof fn lemma_place_keeps_state(acc: Seq<char>, w: Seq<char>, width: int, line: int)
    requires
        layout_state(acc, width, line),
        w.len() > 0,
        white_free(w),
        line >= 0,
    ensures
        layout_state(
            acc + place_text(w, width, line),
            width,
            place_line(w, width, line),
        ),
{
    lemma_lines_len(acc);
    lemma_byte_len_positive(w);
    let la = lines(acc);
    let n = byte_len(w);
    assert(!w.contains('\n') && !w.contains(' ')) by {
        if w.contains('\n') {
            let j = choose|j: int| 0 <= j < w.len() && w[j] == '\n';
            assert(is_white(w[j]));
        }
        if w.contains(' ') {
            let j = choose|j: int| 0 <= j < w.len() && w[j] == ' ';
            assert(is_white(w[j]));
        }
    }
    lemma_first_word_extend(w, Seq::empty());
    let brk = breaks_before(w, width, line);
    let out = acc + place_text(w, width, line);
    let lo = lines(out);
    if brk {
        assert(place_text(w, width, line) =~= seq!['\n'] + w);
        assert(out =~= acc + seq!['\n'] + w);
        lemma_lines_newline(acc, w);
        assert(lo == la.push(w));
        assert forall|i: int| 0 <= i < lo.len() implies byte_len(#[trigger] lo[i]) <= width
            || !lo[i].contains(' ') by {
            if i < la.len() {
                assert(lo[i] == la[i]);
            }
        }
        assert forall|i: int| 0 <= i < lo.len() - 1 implies byte_len(#[trigger] lo[i]) + 1
            + byte_len(first_word(lo[i + 1])) > width by {
            if i < la.len() - 1 {
                assert(lo[i] == la[i] && lo[i + 1] == la[i + 1]);
            } else {
                assert(lo[i] == la.last());
                assert(lo[i + 1] == w);
            }
        }
        assert(lo.last() == w);
    } else if line > 0 {
        let sw = seq![' '] + w;
        assert(place_text(w, width, line) =~= sw);
        assert(!sw.contains('\n')) by {
            if sw.contains('\n') {
                let j = choose|j: int| 0 <= j < sw.len() && sw[j] == '\n';
                assert(j > 0);
                assert(w[j - 1] == '\n');
            }
        }
        lemma_lines_append(acc, sw);
        let nl = la.last() + sw;
        assert(lo == la.update(la.len() - 1, nl));
        lemma_byte_len_one(' ');
        lemma_encode_utf8_concat(la.last(), sw);
        lemma_encode_utf8_concat(seq![' '], w);
        assert(byte_len(nl) == line + 1 + n);
        assert(line + n + 1 <= width);
        lemma_first_word_extend(la.last(), w);
        lemma_first_word_extend(la.last(), sw);
        assert(la.last() + sw =~= la.last() + seq![' '] + w);
        assert(first_word(nl) == first_word(la.last()));
        assert forall|i: int| 0 <= i < lo.len() implies byte_len(#[trigger] lo[i]) <= width
            || !lo[i].contains(' ') by {
            if i < la.len() - 1 {
                assert(lo[i] == la[i]);
            }
        }
        assert forall|i: int| 0 <= i < lo.len() - 1 implies byte_len(#[trigger] lo[i]) + 1
            + byte_len(first_word(lo[i + 1])) > width by {
            assert(lo[i] == la[i]);
            if i + 1 < la.len() - 1 {
                assert(lo[i + 1] == la[i + 1]);
            } else {
                assert(lo[i + 1] == nl);
            }
        }
        assert(lo.last() == nl);
    } else {
        assert(acc.len() == 0);
        assert(place_text(w, width, line) =~= w);
        assert(out =~= Seq::<char>::empty() + w);
        assert(lines(Seq::<char>::empty()) == seq![Seq::<char>::empty()]);
        lemma_lines_append(Seq::empty(), w);
        assert(Seq::<char>::empty() + w =~= w);
        assert(lo =~= seq![w]);
    }
}

proof fn lemma_wrap_words_fit(acc: Seq<char>, ws: Seq<Seq<char>>, width: int, line: int)
    requires
        layout_state(acc, width, line),
        proper_words(ws),
        line >= 0,
    ensures
        lines_fit(acc + wrap_words(ws, width, line), width),
    decreases ws.len(),
{
    if ws.len() == 0 {
        assert(acc + wrap_words(ws, width, line) =~= acc);
    } else {
        let w = ws[0];
        assert(w.len() > 0 && white_free(w));
        lemma_place_keeps_state(acc, w, width, line);
        lemma_byte_len_positive(w);
        let acc2 = acc + place_text(w, width, line);
        let line2 = place_line(w, width, line);
        assert(proper_words(ws.drop_first())) by {
            assert forall|i: int| 0 <= i < ws.drop_first().len() implies #[trigger] ws.drop_first()[
                i
            ].len() > 0 && white_free(ws.drop_first()[i]) by {
                assert(ws.drop_first()[i] == ws[i + 1]);
            }
        }
        lemma_wrap_words_fit(acc2, ws.drop_first(), width, line2);
        assert(acc + wrap_words(ws, width, line) =~= acc2 + wrap_words(
            ws.drop_first(),
            width,
            line2,
        ));
    }
}

/// Wrapping fills lines greedily within the width: every line of the
/// wrapped text is at most `width` bytes long unless it is a single word,
/// and no line breaks early, since the next line's first word would not
/// have fitted after it with a space.
pub proof fn lemma_wrap_line_widths(s: Seq<char>, width: nat)
    ensures
        lines_fit(wrapped(s, width), width as int),
{
    let e = Seq::<char>::empty();
    assert(lines(e) == seq![e]);
    assert(vstd::utf8::encode_utf8(e) =~= Seq::<u8>::empty());
    assert(lines_fit(e, width as int));
    assert(white_free(e));
    lemma_words_from_proper(s, e);
    lemma_wrap_words_fit(e, words(s), width as int, 0);
    assert(e + wrapped(s, width) =~= wrapped(s, width));
}

} // verus!
