use vstd::prelude::*;
use vstd::string::*;
use vstd::utf8::*;

verus! {

// ---------------------------------------------------------------------------
// What std's text routines return, where their definition is a Unicode table.
// ---------------------------------------------------------------------------

/// What `str::to_lowercase` returns for a string with these characters.
pub uninterp spec fn lowercase(s: Seq<char>) -> Seq<char>;

/// What `str::to_uppercase` returns for a string with these characters.
pub uninterp spec fn uppercase(s: Seq<char>) -> Seq<char>;

/// What `String::from_utf8_lossy` returns for these bytes.
pub uninterp spec fn lossy_utf8(bytes: Seq<u8>) -> Seq<char>;

/// Every character is ASCII.
pub open spec fn all_ascii(s: Seq<char>) -> bool {
    forall|i: int| 0 <= i < s.len() ==> (#[trigger] s[i] as u32) < 128
}

pub open spec fn ascii_lower_char(c: char) -> char {
    if 'A' <= c <= 'Z' {
        ((c as u32) + 32) as char
    } else {
        c
    }
}

pub open spec fn ascii_upper_char(c: char) -> char {
    if 'a' <= c <= 'z' {
        ((c as u32) - 32) as char
    } else {
        c
    }
}

/// ASCII capitals lowered, everything else kept.
pub open spec fn ascii_lower_text(s: Seq<char>) -> Seq<char> {
    s.map_values(|c: char| ascii_lower_char(c))
}

/// ASCII small letters raised, everything else kept.
pub open spec fn ascii_upper_text(s: Seq<char>) -> Seq<char> {
    s.map_values(|c: char| ascii_upper_char(c))
}

/// What `str::to_lowercase` returns, spelled out where the text is ASCII.
pub open spec fn lower_text(s: Seq<char>) -> Seq<char> {
    if all_ascii(s) {
        ascii_lower_text(s)
    } else {
        lowercase(s)
    }
}

/// What `str::to_uppercase` returns, spelled out where the text is ASCII.
pub open spec fn upper_text(s: Seq<char>) -> Seq<char> {
    if all_ascii(s) {
        ascii_upper_text(s)
    } else {
        uppercase(s)
    }
}

/// Calls `str::to_lowercase`; its result is named by `lowercase`. The
/// Unicode lower-case mapping std follows maps each ASCII character to its
/// ASCII lower case, one for one.
#[verifier::external_body]
pub(crate) fn str_to_lowercase(s: &str) -> (r: String)
    ensures
        r@ == lowercase(s@),
        all_ascii(s@) ==> r@ == ascii_lower_text(s@),
{
    s.to_lowercase()
}

/// Calls `str::to_uppercase`; its result is named by `uppercase`. On ASCII
/// characters the Unicode upper-case mapping is ASCII upper case.
#[verifier::external_body]
pub(crate) fn str_to_uppercase(s: &str) -> (r: String)
    ensures
        r@ == uppercase(s@),
        all_ascii(s@) ==> r@ == ascii_upper_text(s@),
{
    s.to_uppercase()
}

/// The Unicode `White_Space` property, which `char::is_whitespace` reports:
/// tab to carriage return, space, next line, no-break space, ogham space
/// mark, en quad to hair space, line and paragraph separators, narrow
/// no-break space, medium mathematical space and ideographic space.
pub open spec fn white_space(c: char) -> bool {
    let u = c as u32;
    ||| 0x09 <= u <= 0x0D
    ||| u == 0x20
    ||| u == 0x85
    ||| u == 0xA0
    ||| u == 0x1680
    ||| 0x2000 <= u <= 0x200A
    ||| u == 0x2028
    ||| u == 0x2029
    ||| u == 0x202F
    ||| u == 0x205F
    ||| u == 0x3000
}

pub fn char_is_whitespace(c: char) -> (r: bool)
    ensures
        r == white_space(c),
{
    let u = c as u32;
    (0x09 <= u && u <= 0x0D) || u == 0x20 || u == 0x85 || u == 0xA0 || u == 0x1680 || (0x2000 <= u
        && u <= 0x200A) || u == 0x2028 || u == 0x2029 || u == 0x202F || u == 0x205F || u == 0x3000
}

/// Calls `String::from_utf8_lossy`. Its documentation promises that valid
/// UTF-8 comes back unchanged; what replaces invalid sequences is left to
/// the name `lossy_utf8`.
#[verifier::external_body]
pub(crate) fn string_from_utf8_lossy(bytes: &[u8]) -> (r: String)
    ensures
        r@ == lossy_utf8(bytes@),
        valid_utf8(bytes@) ==> r@ == decode_utf8(bytes@),
{
    String::from_utf8_lossy(bytes).into_owned()
}

/// Collects characters into a `String` with `FromIterator`, which keeps them
/// in order.
#[verifier::external_body]
pub(crate) fn string_from_chars(chars: &Vec<char>) -> (r: String)
    ensures
        r@ == chars@,
{
    chars.iter().collect()
}

// ---------------------------------------------------------------------------
// Characters of a string, as a vector the rest of the library can index.
// ---------------------------------------------------------------------------

pub fn str_chars(s: &str) -> (r: Vec<char>)
    ensures
        r@ == s@,
{
    let n = s.unicode_len();
    let mut out: Vec<char> = Vec::new();
    let mut i: usize = 0;
    while i < n
        invariant
            n == s@.len(),
            i <= n,
            out@ == s@.subrange(0, i as int),
        decreases n - i,
    {
        let c = s.get_char(i);
        out.push(c);
        i = i + 1;
    }
    out
}

pub fn push_all(dst: &mut Vec<char>, src: &[char])
    ensures
        final(dst)@ == old(dst)@ + src@,
{
    let mut i: usize = 0;
    while i < src.len()
        invariant
            i <= src@.len(),
            dst@ == old(dst)@ + src@.subrange(0, i as int),
        decreases src.len() - i,
    {
        dst.push(src[i]);
        i = i + 1;
    }
    assert(src@.subrange(0, src@.len() as int) == src@);
}

pub fn chars_eq(a: &[char], b: &[char]) -> (r: bool)
    ensures
        r == (a@ == b@),
{
    if a.len() != b.len() {
        return false;
    }
    let mut i: usize = 0;
    while i < a.len()
        invariant
            a@.len() == b@.len(),
            i <= a@.len(),
            forall|k: int| 0 <= k < i ==> a@[k] == b@[k],
        decreases a.len() - i,
    {
        if a[i] != b[i] {
            return false;
        }
        i = i + 1;
    }
    assert(a@ =~= b@);
    true
}

pub open spec fn has_prefix(s: Seq<char>, p: Seq<char>) -> bool {
    p.len() <= s.len() && s.subrange(0, p.len() as int) == p
}

/// Text that starts with `p` has `p` as a prefix.
pub proof fn lemma_prefix_of_concat(p: Seq<char>, rest: Seq<char>)
    ensures
        has_prefix(p + rest, p),
{
    assert((p + rest).subrange(0, p.len() as int) =~= p);
}

pub fn chars_start_with(s: &[char], p: &[char]) -> (r: bool)
    ensures
        r == has_prefix(s@, p@),
{
    if p.len() > s.len() {
        return false;
    }
    let mut i: usize = 0;
    while i < p.len()
        invariant
            p@.len() <= s@.len(),
            i <= p@.len(),
            forall|k: int| 0 <= k < i ==> s@[k] == p@[k],
        decreases p.len() - i,
    {
        if s[i] != p[i] {
            assert(s@.subrange(0, p@.len() as int)[i as int] != p@[i as int]);
            return false;
        }
        i = i + 1;
    }
    assert(s@.subrange(0, p@.len() as int) =~= p@);
    true
}

pub fn chars_contain(s: &[char], c: char) -> (r: bool)
    ensures
        r == s@.contains(c),
{
    let mut i: usize = 0;
    while i < s.len()
        invariant
            i <= s@.len(),
            forall|k: int| 0 <= k < i ==> s@[k] != c,
        decreases s.len() - i,
    {
        if s[i] == c {
            return true;
        }
        i = i + 1;
    }
    false
}

/// Characters `from..to` of `s`.
pub fn chars_slice(s: &[char], from: usize, to: usize) -> (r: Vec<char>)
    requires
        from <= to <= s@.len(),
    ensures
        r@ == s@.subrange(from as int, to as int),
{
    let mut out: Vec<char> = Vec::new();
    let mut i: usize = from;
    while i < to
        invariant
            from <= i <= to <= s@.len(),
            out@ == s@.subrange(from as int, i as int),
        decreases to - i,
    {
        out.push(s[i]);
        i = i + 1;
    }
    out
}

// ---------------------------------------------------------------------------
// UTF-8 length of a run of characters.
// ---------------------------------------------------------------------------

/// Bytes the UTF-8 encoding of `c` takes.
pub open spec fn utf8_width(c: char) -> nat {
    if (c as u32) <= 0x7F {
        1
    } else if (c as u32) <= 0x7FF {
        2
    } else if (c as u32) <= 0xFFFF {
        3
    } else {
        4
    }
}

proof fn lemma_encode_len_first(s: Seq<char>)
    requires
        s.len() > 0,
    ensures
        encode_utf8(s).len() == utf8_width(s[0]) + encode_utf8(s.drop_first()).len(),
{
    vstd::utf8::char_is_scalar(s[0]);
}

/// The number of bytes `str::len` reports for these characters.
pub fn utf8_len(s: &[char]) -> (r: u128)
    ensures
        r == encode_utf8(s@).len(),
{
    let mut acc: u128 = 0;
    let mut i: usize = s.len();
    assert(s@.subrange(s@.len() as int, s@.len() as int) =~= Seq::<char>::empty());
    while i > 0
        invariant
            i <= s@.len(),
            acc == encode_utf8(s@.subrange(i as int, s@.len() as int)).len(),
            acc <= 4 * (s@.len() - i),
        decreases i,
    {
        let c = s[i - 1];
        let w: u128 = if (c as u32) <= 0x7F {
            1
        } else if (c as u32) <= 0x7FF {
            2
        } else if (c as u32) <= 0xFFFF {
            3
        } else {
            4
        };
        proof {
            let tail = s@.subrange(i - 1, s@.len() as int);
            lemma_encode_len_first(tail);
            assert(tail.drop_first() =~= s@.subrange(i as int, s@.len() as int));
            assert(tail[0] == c);
        }
        acc = acc + w;
        i = i - 1;
    }
    assert(s@.subrange(0, s@.len() as int) =~= s@);
    acc
}

// ---------------------------------------------------------------------------
// Splitting and joining on a separator character.
// ---------------------------------------------------------------------------

/// The pieces of `s` between occurrences of `sep`, as `str::split` yields
/// them: always at least one piece, empty pieces included.
pub open spec fn split_on(s: Seq<char>, sep: char) -> Seq<Seq<char>>
    decreases s.len(),
{
    if s.len() == 0 {
        seq![seq![]]
    } else {
        let p = split_on(s.drop_last(), sep);
        if s.last() == sep {
            p.push(seq![])
        } else {
            p.update(p.len() - 1, p.last().push(s.last()))
        }
    }
}

/// The pieces joined back together with `sep` between them.
pub open spec fn join_with(parts: Seq<Seq<char>>, sep: char) -> Seq<char>
    decreases parts.len(),
{
    if parts.len() == 0 {
        seq![]
    } else if parts.len() == 1 {
        parts[0]
    } else {
        join_with(parts.drop_last(), sep).push(sep) + parts.last()
    }
}

pub proof fn lemma_split_nonempty(s: Seq<char>, sep: char)
    ensures
        split_on(s, sep).len() >= 1,
    decreases s.len(),
{
    if s.len() > 0 {
        lemma_split_nonempty(s.drop_last(), sep);
    }
}

/// The views of a vector of character vectors.
pub open spec fn views(v: Seq<Vec<char>>) -> Seq<Seq<char>> {
    v.map_values(|x: Vec<char>| x@)
}

pub fn split_chars(s: &[char], sep: char) -> (r: Vec<Vec<char>>)
    ensures
        views(r@) == split_on(s@, sep),
        r@.len() >= 1,
{
    let mut parts: Vec<Vec<char>> = Vec::new();
    let mut cur: Vec<char> = Vec::new();
    let mut i: usize = 0;
    while i < s.len()
        invariant
            i <= s@.len(),
            views(parts@).push(cur@) == split_on(s@.subrange(0, i as int), sep),
        decreases s.len() - i,
    {
        let c = s[i];
        proof {
            let prefix = s@.subrange(0, i + 1);
            assert(prefix.drop_last() =~= s@.subrange(0, i as int));
            assert(prefix.last() == c);
        }
        if c == sep {
            let done = cur;
            proof {
                assert(views(parts@.push(done)) =~= views(parts@).push(done@));
            }
            parts.push(done);
            cur = Vec::new();
            proof {
                assert(views(parts@).push(cur@) =~= split_on(s@.subrange(0, i + 1), sep));
            }
        } else {
            let ghost before = cur@;
            cur.push(c);
            proof {
                let p = views(parts@).push(before);
                assert(views(parts@).push(cur@) =~= p.update(p.len() - 1, p.last().push(c)));
            }
        }
        i = i + 1;
    }
    assert(s@.subrange(0, s@.len() as int) =~= s@);
    proof {
        assert(views(parts@.push(cur)) =~= views(parts@).push(cur@));
    }
    parts.push(cur);
    parts
}

pub fn join_chars(parts: &Vec<Vec<char>>, sep: char) -> (r: Vec<char>)
    ensures
        r@ == join_with(views(parts@), sep),
{
    let mut out: Vec<char> = Vec::new();
    let mut i: usize = 0;
    while i < parts.len()
        invariant
            i <= parts@.len(),
            out@ == join_with(views(parts@).subrange(0, i as int), sep),
        decreases parts.len() - i,
    {
        proof {
            let pre = views(parts@).subrange(0, i + 1);
            assert(pre.drop_last() =~= views(parts@).subrange(0, i as int));
            assert(pre.last() == parts@[i as int]@);
        }
        if i > 0 {
            out.push(sep);
        }
        push_all(&mut out, parts[i].as_slice());
        proof {
            if i == 0 {
                assert(views(parts@).subrange(0, 1)[0] == parts@[0]@);
                assert(out@ =~= parts@[0]@);
            }
        }
        i = i + 1;
    }
    assert(views(parts@).subrange(0, parts@.len() as int) =~= views(parts@));
    out
}

// ---------------------------------------------------------------------------
// Numbers written out in digits.
// ---------------------------------------------------------------------------

/// The digit for `d` (0..=15), upper case past nine.
pub open spec fn hex_digit(d: nat) -> char {
    if d < 10 {
        (48 + d) as char
    } else {
        (55 + d) as char
    }
}

/// `n` in decimal, without leading zeros.
pub open spec fn decimal(n: nat) -> Seq<char>
    decreases n,
{
    if n < 10 {
        seq![hex_digit(n)]
    } else {
        decimal(n / 10).push(hex_digit(n % 10))
    }
}

/// A signed number in decimal, with a leading `-` when it is negative.
pub open spec fn signed_decimal(n: int) -> Seq<char> {
    if n < 0 {
        seq!['-'] + decimal((-n) as nat)
    } else {
        decimal(n as nat)
    }
}

/// The last `width` hexadecimal digits of `n`, upper case, zero padded.
pub open spec fn hex_fixed(n: nat, width: nat) -> Seq<char>
    decreases width,
{
    if width == 0 {
        seq![]
    } else {
        hex_fixed(n / 16, (width - 1) as nat).push(hex_digit(n % 16))
    }
}

fn digit_char(d: u64) -> (c: char)
    requires
        d < 16,
    ensures
        c == hex_digit(d as nat),
{
    if d < 10 {
        ((48 + d) as u8) as char
    } else {
        ((55 + d) as u8) as char
    }
}

pub fn u64_decimal(n: u64) -> (r: Vec<char>)
    ensures
        r@ == decimal(n as nat),
    decreases n,
{
    if n < 10 {
        let mut v: Vec<char> = Vec::new();
        v.push(digit_char(n));
        v
    } else {
        let mut v = u64_decimal(n / 10);
        v.push(digit_char(n % 10));
        v
    }
}

pub fn i64_decimal(n: i64) -> (r: Vec<char>)
    ensures
        r@ == signed_decimal(n as int),
{
    if n < 0 {
        let magnitude: u64 = (-(n as i128)) as u64;
        let mut v: Vec<char> = Vec::new();
        v.push('-');
        let digits = u64_decimal(magnitude);
        push_all(&mut v, digits.as_slice());
        v
    } else {
        u64_decimal(n as u64)
    }
}

pub fn hex_digits(n: u32, width: usize) -> (r: Vec<char>)
    ensures
        r@ == hex_fixed(n as nat, width as nat),
    decreases width,
{
    if width == 0 {
        Vec::new()
    } else {
        let mut v = hex_digits(n / 16, width - 1);
        v.push(digit_char((n % 16) as u64));
        v
    }
}

// ---------------------------------------------------------------------------
// Reading a decimal `i32` as `str::parse::<i32>` does: an optional sign, then
// one or more ASCII digits, and nothing else; a value out of range is no
// number.
// ---------------------------------------------------------------------------

pub open spec fn is_ascii_digit(c: char) -> bool {
    '0' <= c <= '9'
}

pub open spec fn all_ascii_digits(s: Seq<char>) -> bool {
    forall|i: int| 0 <= i < s.len() ==> #[trigger] is_ascii_digit(s[i])
}

pub open spec fn digits_value(s: Seq<char>) -> int
    decreases s.len(),
{
    if s.len() == 0 {
        0
    } else {
        digits_value(s.drop_last()) * 10 + ((s.last() as int) - 48)
    }
}

/// The sign and the digits after it.
pub open spec fn sign_split(s: Seq<char>) -> (bool, Seq<char>) {
    if s.len() > 0 && s[0] == '-' {
        (true, s.drop_first())
    } else if s.len() > 0 && s[0] == '+' {
        (false, s.drop_first())
    } else {
        (false, s)
    }
}

pub open spec fn parsed_i32(s: Seq<char>) -> Option<i32> {
    let (negative, body) = sign_split(s);
    if body.len() == 0 || !all_ascii_digits(body) {
        None
    } else {
        let v = if negative {
            -digits_value(body)
        } else {
            digits_value(body)
        };
        if i32::MIN <= v <= i32::MAX {
            Some(v as i32)
        } else {
            None
        }
    }
}

proof fn lemma_digits_value_nonneg(s: Seq<char>)
    requires
        all_ascii_digits(s),
    ensures
        digits_value(s) >= 0,
    decreases s.len(),
{
    if s.len() > 0 {
        assert(is_ascii_digit(s[s.len() - 1]));
        lemma_digits_value_nonneg(s.drop_last());
    }
}

pub fn parse_i32(s: &str) -> (r: Option<i32>)
    ensures
        r == parsed_i32(s@),
{
    let chars = str_chars(s);
    let n = chars.len();
    let mut negative = false;
    let mut start: usize = 0;
    if n > 0 && chars[0] == '-' {
        negative = true;
        start = 1;
    } else if n > 0 && chars[0] == '+' {
        start = 1;
    }
    let ghost body = chars@.subrange(start as int, n as int);
    assert(sign_split(s@) == (negative, body)) by {
        if n > 0 {
            assert(chars@.drop_first() =~= chars@.subrange(1, n as int));
        }
        assert(chars@.subrange(0, n as int) =~= chars@);
    }
    if start == n {
        return None;
    }
    let mut acc: i64 = 0;
    let mut big = false;
    let mut i: usize = start;
    while i < n
        invariant
            start <= i <= n,
            n == chars@.len(),
            body == chars@.subrange(start as int, n as int),
            sign_split(s@) == (negative, body),
            all_ascii_digits(chars@.subrange(start as int, i as int)),
            !big ==> acc == digits_value(chars@.subrange(start as int, i as int)) && 0 <= acc <= 2147483648,
            big ==> digits_value(chars@.subrange(start as int, i as int)) > 2147483648,
        decreases n - i,
    {
        let c = chars[i];
        let ghost pre = chars@.subrange(start as int, i as int);
        let ghost ext = chars@.subrange(start as int, i + 1);
        assert(ext.drop_last() =~= pre);
        assert(ext.last() == c);
        if !('0' <= c && c <= '9') {
            assert(body[i - start] == c);
            assert(!is_ascii_digit(body[i - start]));
            assert(!all_ascii_digits(body));
            return None;
        }
        assert(all_ascii_digits(ext)) by {
            assert forall|k: int| 0 <= k < ext.len() implies #[trigger] is_ascii_digit(ext[k]) by {
                if k < pre.len() {
                    assert(ext[k] == pre[k]);
                }
            }
        }
        if !big {
            let next: i64 = acc * 10 + ((c as u32) as i64 - 48);
            if next > 2147483648 {
                big = true;
            } else {
                acc = next;
            }
        } else {
            proof {
                lemma_digits_value_nonneg(pre);
            }
        }
        i = i + 1;
    }
    assert(chars@.subrange(start as int, i as int) =~= body);
    if big {
        return None;
    }
    if negative {
        Some((-acc) as i32)
    } else if acc <= 2147483647 {
        Some(acc as i32)
    } else {
        None
    }
}

/// `str::parse::<u32>`: an optional `+`, then one or more ASCII digits and
/// nothing else, within range.
pub open spec fn parsed_u32(s: Seq<char>) -> Option<u32> {
    let body = if s.len() > 0 && s[0] == '+' {
        s.drop_first()
    } else {
        s
    };
    if body.len() == 0 || !all_ascii_digits(body) {
        None
    } else if digits_value(body) <= u32::MAX {
        Some(digits_value(body) as u32)
    } else {
        None
    }
}

pub fn parse_u32(s: &str) -> (r: Option<u32>)
    ensures
        r == parsed_u32(s@),
{
    let chars = str_chars(s);
    let n = chars.len();
    let mut start: usize = 0;
    if n > 0 && chars[0] == '+' {
        start = 1;
    }
    let ghost body = chars@.subrange(start as int, n as int);
    assert(body == (if s@.len() > 0 && s@[0] == '+' {
        s@.drop_first()
    } else {
        s@
    })) by {
        if n > 0 {
            assert(chars@.drop_first() =~= chars@.subrange(1, n as int));
        }
        assert(chars@.subrange(0, n as int) =~= chars@);
    }
    if start == n {
        return None;
    }
    let mut acc: u64 = 0;
    let mut big = false;
    let mut i: usize = start;
    while i < n
        invariant
            start <= i <= n,
            n == chars@.len(),
            body == chars@.subrange(start as int, n as int),
            body == (if s@.len() > 0 && s@[0] == '+' {
                s@.drop_first()
            } else {
                s@
            }),
            all_ascii_digits(chars@.subrange(start as int, i as int)),
            !big ==> acc == digits_value(chars@.subrange(start as int, i as int)) && 0 <= acc <= 4294967295,
            big ==> digits_value(chars@.subrange(start as int, i as int)) > 4294967295,
        decreases n - i,
    {
        let c = chars[i];
        let ghost pre = chars@.subrange(start as int, i as int);
        let ghost ext = chars@.subrange(start as int, i + 1);
        assert(ext.drop_last() =~= pre);
        assert(ext.last() == c);
        if !('0' <= c && c <= '9') {
            assert(body[i - start] == c);
            assert(!is_ascii_digit(body[i - start]));
            assert(!all_ascii_digits(body));
            return None;
        }
        assert(all_ascii_digits(ext)) by {
            assert forall|k: int| 0 <= k < ext.len() implies #[trigger] is_ascii_digit(ext[k]) by {
                if k < pre.len() {
                    assert(ext[k] == pre[k]);
                }
            }
        }
        if !big {
            let next: u64 = acc * 10 + ((c as u32) as u64 - 48);
            if next > 4294967295 {
                big = true;
            } else {
                acc = next;
            }
        } else {
            proof {
                lemma_digits_value_nonneg(pre);
            }
        }
        i = i + 1;
    }
    assert(chars@.subrange(start as int, i as int) =~= body);
    if big {
        return None;
    }
    Some(acc as u32)
}

} // verus!
