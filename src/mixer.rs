use vstd::prelude::*;
use crate::display::{decimal, digit_char};
use crate::error::SoundError;

verus! {

/// Unicode `White_Space`, the set that `char::is_whitespace` tests.
pub open spec fn is_space(c: char) -> bool {
    let u = c as u32;
    u == 0x20 || (0x09 <= u && u <= 0x0d) || u == 0x85 || u == 0xa0 || u == 0x1680 || (0x2000
        <= u && u <= 0x200a) || u == 0x2028 || u == 0x2029 || u == 0x202f || u == 0x205f || u
        == 0x3000
}

/// The characters that surround a level in the mixer's output: `[80%]`.
pub open spec fn is_bracket_char(c: char) -> bool {
    c == '[' || c == ']' || c == '%'
}

/// The text without its trailing whitespace.
pub open spec fn trim_end(s: Seq<char>) -> Seq<char>
    decreases s.len(),
{
    if s.len() > 0 && is_space(s.last()) {
        trim_end(s.drop_last())
    } else {
        s
    }
}

/// What follows the last newline of the text (all of it when it has none).
pub open spec fn after_last_newline(s: Seq<char>) -> Seq<char>
    decreases s.len(),
{
    if s.len() == 0 {
        s
    } else if s.last() == '\n' {
        Seq::empty()
    } else {
        after_last_newline(s.drop_last()).push(s.last())
    }
}

/// The last line of the trimmed output. Leading whitespace may remain: it
/// never changes the tokens of the line.
pub open spec fn last_line(s: Seq<char>) -> Seq<char> {
    after_last_newline(trim_end(s))
}

pub open spec fn strip_start(w: Seq<char>) -> Seq<char>
    decreases w.len(),
{
    if w.len() > 0 && is_bracket_char(w[0]) {
        strip_start(w.drop_first())
    } else {
        w
    }
}

pub open spec fn strip_end(w: Seq<char>) -> Seq<char>
    decreases w.len(),
{
    if w.len() > 0 && is_bracket_char(w.last()) {
        strip_end(w.drop_last())
    } else {
        w
    }
}

/// The word with brackets and percent signs removed from both ends.
pub open spec fn strip(w: Seq<char>) -> Seq<char> {
    strip_end(strip_start(w))
}

pub open spec fn has_decibels(w: Seq<char>) -> bool {
    exists|i: int| 0 <= i && i + 1 < w.len() && #[trigger] w[i] == 'd' && w[i + 1] == 'B'
}

/// A bracketed token that is not a decibel reading: `[80%]` or `[off]`.
pub open spec fn is_level_word(w: Seq<char>) -> bool {
    w.len() > 0 && w[0] == '[' && !has_decibels(w)
}

pub open spec fn keep_word(acc: Seq<Seq<char>>, w: Seq<char>) -> Seq<Seq<char>> {
    if is_level_word(w) {
        acc.push(strip(w))
    } else {
        acc
    }
}

/// Reading `s` from the left: the stripped level tokens of the words already
/// ended by whitespace, and the word still being read.
pub open spec fn scan_words(s: Seq<char>) -> (Seq<Seq<char>>, Seq<char>)
    decreases s.len(),
{
    if s.len() == 0 {
        (Seq::empty(), Seq::empty())
    } else {
        let (acc, w) = scan_words(s.drop_last());
        if is_space(s.last()) {
            (keep_word(acc, w), Seq::empty())
        } else {
            (acc, w.push(s.last()))
        }
    }
}

/// The level tokens of a line, in order, stripped of their brackets.
pub open spec fn level_tokens(line: Seq<char>) -> Seq<Seq<char>> {
    keep_word(scan_words(line).0, scan_words(line).1)
}

pub open spec fn is_digit(c: char) -> bool {
    '0' <= c && c <= '9'
}

pub open spec fn digits_value(d: Seq<char>) -> nat
    decreases d.len(),
{
    if d.len() == 0 {
        0
    } else {
        digits_value(d.drop_last()) * 10 + ((d.last() as u32) - 48) as nat
    }
}

/// The digits of a number, without the one leading `+` that is allowed.
pub open spec fn unsigned_digits(t: Seq<char>) -> Seq<char> {
    if t.len() > 0 && t[0] == '+' {
        t.drop_first()
    } else {
        t
    }
}

/// The text is a decimal number that fits in a `u32`.
pub open spec fn is_u32_text(t: Seq<char>) -> bool {
    let d = unsigned_digits(t);
    &&& d.len() > 0
    &&& forall|i: int| 0 <= i < d.len() ==> is_digit(#[trigger] d[i])
    &&& digits_value(d) <= u32::MAX
}

pub open spec fn u32_value(t: Seq<char>) -> u32 {
    digits_value(unsigned_digits(t)) as u32
}

/// Volume and mute state as the mixer reported them.
#[derive(Debug, Clone, Copy, PartialEq, Eq, Structural)]
pub struct MixerReading {
    pub volume: u32,
    pub muted: bool,
}

pub open spec fn is_off(t: Seq<char>) -> bool {
    t == seq!['o', 'f', 'f']
}

/// What the mixer's output says: the first level token of the last line is
/// the volume, and a second one that reads `off` means muted.
pub open spec fn mixer_reading(s: Seq<char>) -> Result<MixerReading, SoundError> {
    let tokens = level_tokens(last_line(s));
    if trim_end(s).len() == 0 {
        Err(SoundError::NoOutput)
    } else if tokens.len() == 0 {
        Err(SoundError::NoVolume)
    } else if !is_u32_text(tokens[0]) {
        Err(SoundError::BadVolume)
    } else {
        Ok(MixerReading { volume: u32_value(tokens[0]), muted: tokens.len() > 1 && is_off(tokens[1]) })
    }
}

pub fn is_space_char(c: char) -> (r: bool)
    ensures
        r == is_space(c),
{
    let u = c as u32;
    u == 0x20 || (0x09 <= u && u <= 0x0d) || u == 0x85 || u == 0xa0 || u == 0x1680 || (0x2000
        <= u && u <= 0x200a) || u == 0x2028 || u == 0x2029 || u == 0x202f || u == 0x205f || u
        == 0x3000
}

/// Removes the brackets and percent signs at both ends of a word.
pub fn strip_word(w: &Vec<char>) -> (r: Vec<char>)
    ensures
        r@ == strip(w@),
{
    let n = w.len();
    let mut a: usize = 0;
    assert(w@.subrange(0, n as int) =~= w@);
    while a < n && (w[a] == '[' || w[a] == ']' || w[a] == '%')
        invariant
            n == w@.len(),
            a <= n,
            strip_start(w@) == strip_start(w@.subrange(a as int, n as int)),
        decreases n - a,
    {
        assert(w@.subrange(a as int + 1, n as int) =~= w@.subrange(a as int, n as int).drop_first());
        a = a + 1;
    }
    assert(strip_start(w@.subrange(a as int, n as int)) == w@.subrange(a as int, n as int));
    let mut b: usize = n;
    while b > a && (w[b - 1] == '[' || w[b - 1] == ']' || w[b - 1] == '%')
        invariant
            n == w@.len(),
            a <= b <= n,
            strip(w@) == strip_end(w@.subrange(a as int, b as int)),
        decreases b - a,
    {
        assert(w@.subrange(a as int, b as int - 1) =~= w@.subrange(a as int, b as int).drop_last());
        b = b - 1;
    }
    let mut r: Vec<char> = Vec::new();
    let mut i: usize = a;
    while i < b
        invariant
            n == w@.len(),
            a <= i <= b <= n,
            r@ == w@.subrange(a as int, i as int),
        decreases b - i,
    {
        r.push(w[i]);
        assert(r@ =~= w@.subrange(a as int, i as int + 1));
        i = i + 1;
    }
    r
}

pub fn is_level(w: &Vec<char>) -> (r: bool)
    ensures
        r == is_level_word(w@),
{
    if w.len() == 0 || w[0] != '[' {
        return false;
    }
    let mut i: usize = 0;
    while i + 1 < w.len()
        invariant
            i < w@.len(),
            forall|j: int| 0 <= j < i && j + 1 < w@.len() ==> !(#[trigger] w@[j] == 'd' && w@[j + 1] == 'B'),
        decreases w.len() - i,
    {
        if w[i] == 'd' && w[i + 1] == 'B' {
            return false;
        }
        i = i + 1;
    }
    true
}

fn push_token(tokens: &mut Vec<Vec<char>>, t: Vec<char>)
    ensures
        final(tokens).deep_view() == old(tokens).deep_view().push(t@),
{
    let ghost before = tokens@;
    let ghost tv = t@;
    assert(t.deep_view() =~= t@);
    tokens.push(t);
    assert(tokens@ == before.push(t));
    assert(tokens.deep_view() =~= old(tokens).deep_view().push(tv));
}

/// The level tokens of the characters `start..end` of the text.
fn level_tokens_of(text: &str, start: usize, end: usize) -> (r: Vec<Vec<char>>)
    requires
        start <= end <= text@.len(),
    ensures
        r.deep_view() == level_tokens(text@.subrange(start as int, end as int)),
{
    let ghost s = text@;
    let mut tokens: Vec<Vec<char>> = Vec::new();
    let mut word: Vec<char> = Vec::new();
    let mut i: usize = start;
    while i < end
        invariant
            s == text@,
            start <= i <= end <= s.len(),
            (tokens.deep_view(), word@) == scan_words(s.subrange(start as int, i as int)),
        decreases end - i,
    {
        let c = text.get_char(i);
        let ghost prev = s.subrange(start as int, i as int);
        let ghost next = s.subrange(start as int, i as int + 1);
        assert(next.drop_last() =~= prev);
        if is_space_char(c) {
            if is_level(&word) {
                let t = strip_word(&word);
                push_token(&mut tokens, t);
            }
            word = Vec::new();
            assert(word@ =~= Seq::<char>::empty());
        } else {
            word.push(c);
        }
        i = i + 1;
    }
    if is_level(&word) {
        let t = strip_word(&word);
        push_token(&mut tokens, t);
    }
    tokens
}

proof fn lemma_digits_prefix(d: Seq<char>, i: int)
    requires
        0 <= i <= d.len(),
    ensures
        digits_value(d.take(i)) <= digits_value(d),
    decreases d.len(),
{
    if i < d.len() {
        lemma_digits_prefix(d.drop_last(), i);
        assert(d.drop_last().take(i) =~= d.take(i));
    } else {
        assert(d.take(i) =~= d);
    }
}

/// Reads an unsigned decimal number, with an optional leading `+`.
pub fn parse_u32(t: &Vec<char>) -> (r: Option<u32>)
    ensures
        r.is_some() == is_u32_text(t@),
        r.is_some() ==> r.unwrap() == u32_value(t@),
{
    let n = t.len();
    let mut i: usize = 0;
    if n > 0 && t[0] == '+' {
        i = 1;
    }
    let ghost d = unsigned_digits(t@);
    let ghost off: int = i as int;
    assert(d =~= t@.subrange(off, n as int));
    if i == n {
        return None;
    }
    let mut v: u64 = 0;
    assert(d.take(0) =~= Seq::<char>::empty());
    while i < n
        invariant
            n == t@.len(),
            0 <= off <= i <= n,
            d == t@.subrange(off, n as int),
            d == unsigned_digits(t@),
            forall|k: int| 0 <= k < i - off ==> is_digit(#[trigger] d[k]),
            v == digits_value(d.take(i - off)),
            v <= u32::MAX,
        decreases n - i,
    {
        let ghost k = i - off;
        let c = t[i];
        assert(d[k] == c);
        if c < '0' || c > '9' {
            assert(!is_digit(d[k]));
            assert(!is_u32_text(t@));
            return None;
        }
        assert(d.take(k + 1).drop_last() =~= d.take(k));
        assert(d.take(k + 1).last() == c);
        assert(digits_value(d.take(k + 1)) == digits_value(d.take(k)) * 10 + ((c as u32) - 48) as nat);
        let nv = v * 10 + ((c as u32) - 48) as u64;
        if nv > 0xffff_ffff {
            proof {
                lemma_digits_prefix(d, k + 1);
            }
            assert(!is_u32_text(t@));
            return None;
        }
        v = nv;
        i = i + 1;
    }
    assert(d.take(d.len() as int) =~= d);
    Some(v as u32)
}

/// Reads the volume and mute state from what the mixer query printed.
pub fn parse_mixer_output(text: &str) -> (r: Result<MixerReading, SoundError>)
    ensures
        r == mixer_reading(text@),
{
    let ghost s = text@;
    let n = text.unicode_len();
    let mut end: usize = n;
    assert(s.take(n as int) =~= s);
    while end > 0 && is_space_char(text.get_char(end - 1))
        invariant
            end <= n == s.len(),
            s == text@,
            trim_end(s) == trim_end(s.take(end as int)),
        decreases end,
    {
        assert(s.take(end as int - 1) =~= s.take(end as int).drop_last());
        end = end - 1;
    }
    assert(trim_end(s) == s.take(end as int));
    if end == 0 {
        return Err(SoundError::NoOutput);
    }
    let mut start: usize = end;
    while start > 0 && text.get_char(start - 1) != '\n'
        invariant
            start <= end <= n == s.len(),
            s == text@,
            after_last_newline(s.take(end as int)) == after_last_newline(s.take(start as int))
                + s.subrange(start as int, end as int),
        decreases start,
    {
        let ghost p = s.take(start as int);
        assert(s.take(start as int - 1) =~= p.drop_last());
        assert(s.subrange(start as int - 1, end as int) =~= seq![p.last()] + s.subrange(
            start as int,
            end as int,
        ));
        assert(after_last_newline(p) == after_last_newline(p.drop_last()).push(p.last()));
        assert(after_last_newline(p.drop_last()).push(p.last()) + s.subrange(start as int, end as int)
            =~= after_last_newline(p.drop_last()) + s.subrange(start as int - 1, end as int));
        start = start - 1;
    }
    assert(after_last_newline(s.take(start as int)) =~= Seq::<char>::empty());
    assert(last_line(s) =~= s.subrange(start as int, end as int));
    let tokens = level_tokens_of(text, start, end);
    if tokens.len() == 0 {
        return Err(SoundError::NoVolume);
    }
    assert(tokens[0].deep_view() =~= tokens[0]@);
    let volume = match parse_u32(&tokens[0]) {
        Some(v) => v,
        None => {
            return Err(SoundError::BadVolume);
        },
    };
    let mut muted = false;
    if tokens.len() > 1 {
        let t = &tokens[1];
        assert(t.deep_view() =~= t@);
        muted = t.len() == 3 && t[0] == 'o' && t[1] == 'f' && t[2] == 'f';
        assert(muted == is_off(t@)) by {
            if muted {
                assert(t@ =~= seq!['o', 'f', 'f']);
            }
        }
    }
    Ok(MixerReading { volume, muted })
}

proof fn lemma_scan_concat(a: Seq<char>, b: Seq<char>)
    requires
        a.len() == 0 || is_space(a.last()),
    ensures
        scan_words(a + b) == (scan_words(a).0 + scan_words(b).0, scan_words(b).1),
    decreases b.len(),
{
    if b.len() == 0 {
        assert(a + b =~= a);
        assert(scan_words(a).0 + scan_words(b).0 =~= scan_words(a).0);
        if a.len() > 0 {
            assert(scan_words(a).1 == Seq::<char>::empty());
        }
    } else {
        lemma_scan_concat(a, b.drop_last());
        assert((a + b).drop_last() =~= a + b.drop_last());
        assert((a + b).last() == b.last());
        let (pa, pw) = scan_words(a);
        let (pb, wb) = scan_words(b.drop_last());
        assert((pa + pb).push(strip(wb)) =~= pa + pb.push(strip(wb)));
    }
}

proof fn lemma_scan_word(w: Seq<char>)
    requires
        forall|i: int| 0 <= i < w.len() ==> !is_space(#[trigger] w[i]),
    ensures
        scan_words(w) == (Seq::<Seq<char>>::empty(), w),
    decreases w.len(),
{
    if w.len() > 0 {
        let p = w.drop_last();
        assert forall|i: int| 0 <= i < p.len() implies !is_space(#[trigger] p[i]) by {
            assert(p[i] == w[i]);
        }
        lemma_scan_word(p);
        assert(w[w.len() - 1] == w.last());
        assert(p.push(w.last()) =~= w);
    }
}

proof fn lemma_trim_trailing_space(x: Seq<char>, tail: Seq<char>)
    requires
        forall|i: int| 0 <= i < tail.len() ==> is_space(#[trigger] tail[i]),
    ensures
        trim_end(x + tail) == trim_end(x),
    decreases tail.len(),
{
    if tail.len() == 0 {
        assert(x + tail =~= x);
    } else {
        let p = tail.drop_last();
        assert forall|i: int| 0 <= i < p.len() implies is_space(#[trigger] p[i]) by {
            assert(p[i] == tail[i]);
        }
        lemma_trim_trailing_space(x, p);
        assert((x + tail).drop_last() =~= x + p);
        assert(tail[tail.len() - 1] == (x + tail).last());
    }
}

proof fn lemma_last_line_after(head: Seq<char>, line: Seq<char>)
    requires
        forall|i: int| 0 <= i < line.len() ==> #[trigger] line[i] != '\n',
    ensures
        after_last_newline(head + line) == after_last_newline(head) + line,
    decreases line.len(),
{
    if line.len() == 0 {
        assert(head + line =~= head);
        assert(after_last_newline(head) + line =~= after_last_newline(head));
    } else {
        let p = line.drop_last();
        assert forall|i: int| 0 <= i < p.len() implies #[trigger] p[i] != '\n' by {
            assert(p[i] == line[i]);
        }
        lemma_last_line_after(head, p);
        assert((head + line).drop_last() =~= head + p);
        assert(line[line.len() - 1] == (head + line).last());
        assert((after_last_newline(head) + p).push(line.last()) =~= after_last_newline(head)
            + line);
    }
}

proof fn lemma_decimal(n: nat)
    ensures
        decimal(n).len() > 0,
        forall|i: int| 0 <= i < decimal(n).len() ==> is_digit(#[trigger] decimal(n)[i]),
        digits_value(decimal(n)) == n,
    decreases n,
{
    assert(digit_char(n % 10) as u32 == n % 10 + 48);
    if n >= 10 {
        lemma_decimal(n / 10);
        let d = decimal(n);
        let p = decimal(n / 10);
        assert(d == p.push(digit_char(n % 10)));
        assert forall|i: int| 0 <= i < d.len() implies is_digit(#[trigger] d[i]) by {
            if i < p.len() {
                assert(d[i] == p[i]);
            }
        }
        assert(d.drop_last() =~= p);
        assert(d.last() == digit_char(n % 10));
        assert(digits_value(d) == digits_value(p) * 10 + ((d.last() as u32) - 48) as nat);
        assert((n / 10) * 10 + n % 10 == n) by (nonlinear_arith);
    } else {
        let d = decimal(n);
        assert(d.drop_last() =~= Seq::<char>::empty());
        assert(d.last() == digit_char(n));
        assert(digits_value(d) == digits_value(d.drop_last()) * 10 + ((d.last() as u32) - 48) as nat);
        assert(digits_value(Seq::<char>::empty()) == 0);
    }
}

/// A last line with a readable level and no second level token reads as
/// unmuted: a missing mute token is never an error.
pub proof fn lemma_missing_mute_token_is_unmuted(s: Seq<char>)
    requires
        trim_end(s).len() > 0,
        level_tokens(last_line(s)).len() == 1,
        is_u32_text(level_tokens(last_line(s))[0]),
    ensures
        mixer_reading(s) == Ok::<MixerReading, SoundError>(
            MixerReading { volume: u32_value(level_tokens(last_line(s))[0]), muted: false },
        ),
{
}

/// The bracketed level `[<n>%]` as the mixer writes it.
pub open spec fn level_word(n: u32) -> Seq<char> {
    seq!['['] + decimal(n as nat) + seq!['%', ']']
}

/// When the last line of the mixer's output holds the level `[<n>%]`, with
/// no bracketed token before it and any words after it, the reading's volume
/// is exactly `n`, whatever lines come before and whatever whitespace after.
pub proof fn lemma_volume_is_bracketed_number(
    head: Seq<char>,
    pre: Seq<char>,
    n: u32,
    post: Seq<char>,
    tail: Seq<char>,
)
    requires
        head.len() == 0 || head.last() == '\n',
        pre.len() == 0 || is_space(pre.last()),
        level_tokens(pre).len() == 0,
        post.len() == 0 || (is_space(post[0]) && !is_space(post.last())),
        forall|i: int| 0 <= i < pre.len() ==> #[trigger] pre[i] != '\n',
        forall|i: int| 0 <= i < post.len() ==> #[trigger] post[i] != '\n',
        forall|i: int| 0 <= i < tail.len() ==> is_space(#[trigger] tail[i]),
    ensures
        mixer_reading(head + pre + level_word(n) + post + tail) is Ok,
        mixer_reading(head + pre + level_word(n) + post + tail)->Ok_0.volume == n,
{
    let word = level_word(n);
    lemma_level_word(n);
    let line = pre + word + post;
    assert forall|i: int| 0 <= i < line.len() implies #[trigger] line[i] != '\n' by {
        if i < pre.len() {
            assert(line[i] == pre[i]);
        } else if i < pre.len() + word.len() {
            assert(line[i] == word[i - pre.len()]);
        } else {
            assert(line[i] == post[i - pre.len() - word.len()]);
        }
    }
    let last = if post.len() == 0 {
        word[word.len() - 1]
    } else {
        post.last()
    };
    assert(line.last() == last);
    let s = head + pre + word + post + tail;
    assert(s =~= (head + line) + tail);
    lemma_last_line_is(head, line, tail);
    lemma_first_token(pre, n, post);
    assert(unsigned_digits(decimal(n as nat)) == decimal(n as nat));
}

/// The level word is a bracketed token whose stripped form is the digits.
proof fn lemma_level_word(n: u32)
    ensures
        forall|i: int|
            0 <= i < level_word(n).len() ==> !is_space(#[trigger] level_word(n)[i])
                && level_word(n)[i] != '\n' && level_word(n)[i] != 'd',
        is_level_word(level_word(n)),
        strip(level_word(n)) == decimal(n as nat),
        decimal(n as nat)[0] != '+',
        is_u32_text(decimal(n as nat)),
        u32_value(decimal(n as nat)) == n,
{
    let dn = decimal(n as nat);
    let word = level_word(n);
    lemma_decimal(n as nat);
    assert(is_digit(dn[0]));
    assert forall|i: int| 0 <= i < word.len() implies !is_space(#[trigger] word[i]) && word[i]
        != '\n' && word[i] != 'd' by {
        if 1 <= i < dn.len() + 1 {
            assert(word[i] == dn[i - 1]);
            assert(is_digit(dn[i - 1]));
        }
    }
    assert(!has_decibels(word));
    let dpb = dn + seq!['%', ']'];
    let dp = dn + seq!['%'];
    assert(word.drop_first() =~= dpb);
    assert(dpb[0] == dn[0]);
    assert(strip_start(word) == strip_start(dpb));
    assert(strip_start(dpb) == dpb);
    assert(dpb.drop_last() =~= dp);
    assert(dpb.last() == ']');
    assert(strip_end(dpb) == strip_end(dp));
    assert(dp.drop_last() =~= dn);
    assert(dp.last() == '%');
    assert(strip_end(dp) == strip_end(dn));
    assert(dn.last() == dn[dn.len() - 1]);
    assert(is_digit(dn[dn.len() - 1]));
    assert(strip_end(dn) == dn);
    assert(unsigned_digits(dn) == dn);
}

proof fn lemma_last_line_is(head: Seq<char>, line: Seq<char>, tail: Seq<char>)
    requires
        head.len() == 0 || head.last() == '\n',
        line.len() > 0 && !is_space(line.last()),
        forall|i: int| 0 <= i < line.len() ==> #[trigger] line[i] != '\n',
        forall|i: int| 0 <= i < tail.len() ==> is_space(#[trigger] tail[i]),
    ensures
        trim_end((head + line) + tail).len() > 0,
        last_line((head + line) + tail) == line,
{
    lemma_trim_trailing_space(head + line, tail);
    assert((head + line).last() == line.last());
    assert(trim_end(head + line) == head + line);
    lemma_last_line_after(head, line);
    if head.len() > 0 {
        assert(head =~= head.drop_last().push(head.last()));
    }
    assert(after_last_newline(head) =~= Seq::<char>::empty());
    assert(after_last_newline(head) + line =~= line);
}

proof fn lemma_word_then_rest(n: u32, post: Seq<char>)
    requires
        post.len() == 0 || is_space(post[0]),
    ensures
        level_tokens(level_word(n) + post).len() > 0,
        level_tokens(level_word(n) + post)[0] == decimal(n as nat),
{
    let word = level_word(n);
    lemma_level_word(n);
    lemma_scan_word(word);
    let first = strip(word);
    if post.len() == 0 {
        assert(word + post =~= word);
        assert(level_tokens(word) =~= seq![first]);
    } else {
        let a = word.push(post[0]);
        assert(a.drop_last() =~= word);
        assert(a.last() == post[0]);
        assert(scan_words(a) == (keep_word(Seq::empty(), word), Seq::<char>::empty()));
        assert(scan_words(a).0 =~= seq![first]);
        lemma_scan_concat(a, post.drop_first());
        assert(word + post =~= a + post.drop_first());
        assert(level_tokens(word + post) =~= seq![first] + level_tokens(post.drop_first()));
    }
}

proof fn lemma_first_token(pre: Seq<char>, n: u32, post: Seq<char>)
    requires
        pre.len() == 0 || is_space(pre.last()),
        level_tokens(pre).len() == 0,
        post.len() == 0 || is_space(post[0]),
    ensures
        level_tokens(pre + level_word(n) + post).len() > 0,
        level_tokens(pre + level_word(n) + post)[0] == decimal(n as nat),
{
    let rest = level_word(n) + post;
    lemma_word_then_rest(n, post);
    lemma_scan_concat(pre, rest);
    assert(pre + level_word(n) + post =~= pre + rest);
    if pre.len() > 0 {
        assert(scan_words(pre).1 == Seq::<char>::empty());
    }
    assert(scan_words(pre).0 =~= Seq::<Seq<char>>::empty());
    let (pb, wb) = scan_words(rest);
    assert(keep_word(Seq::<Seq<char>>::empty() + pb, wb) =~= keep_word(pb, wb));
    assert(level_tokens(pre + rest) == level_tokens(rest));
}
} // verus!
