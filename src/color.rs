use vstd::prelude::*;

verus! {

/// Value of one hexadecimal digit, either case.
pub open spec fn hex_digit_value(c: char) -> Option<nat> {
    if '0' <= c && c <= '9' {
        Some((c as nat - '0' as nat) as nat)
    } else if 'a' <= c && c <= 'f' {
        Some((c as nat - 'a' as nat + 10) as nat)
    } else if 'A' <= c && c <= 'F' {
        Some((c as nat - 'A' as nat + 10) as nat)
    } else {
        None
    }
}

pub open spec fn is_hex_digit(c: char) -> bool {
    hex_digit_value(c) is Some
}

/// The input with every leading `#` marker removed.
pub open spec fn strip_markers(s: Seq<char>) -> Seq<char>
    decreases s.len(),
{
    if s.len() > 0 && s[0] == '#' {
        strip_markers(s.drop_first())
    } else {
        s
    }
}

/// One color channel read from two characters as a base-16 number: two
/// digits, or a `+` sign and one digit; anything else reads as 255.
pub open spec fn channel_of(a: char, b: char) -> u8 {
    match (hex_digit_value(a), hex_digit_value(b)) {
        (Some(hi), Some(lo)) => (hi * 16 + lo) as u8,
        (None, Some(lo)) => if a == '+' {
            lo as u8
        } else {
            255
        },
        _ => 255,
    }
}

/// The color a hex string denotes: leading markers are dropped; fewer than
/// six characters left gives white; otherwise the first six characters are
/// three channels.
pub open spec fn color_of(s: Seq<char>) -> (u8, u8, u8) {
    let h = strip_markers(s);
    if h.len() < 6 {
        (255, 255, 255)
    } else {
        (channel_of(h[0], h[1]), channel_of(h[2], h[3]), channel_of(h[4], h[5]))
    }
}

/// The sixteen lowercase hex digits in order.
pub open spec fn hex_digits() -> Seq<char> {
    seq!['0', '1', '2', '3', '4', '5', '6', '7', '8', '9', 'a', 'b', 'c', 'd', 'e', 'f']
}

/// Lowercase hex digit for a value below sixteen.
pub open spec fn hex_char(v: nat) -> char {
    hex_digits()[v as int]
}

/// Two lowercase hex digits of a byte.
pub open spec fn hex_pair(b: u8) -> Seq<char> {
    seq![hex_char(b as nat / 16), hex_char(b as nat % 16)]
}

/// Six lowercase hex digits of a color, with no marker.
pub open spec fn hex_of(r: u8, g: u8, b: u8) -> Seq<char> {
    hex_pair(r) + hex_pair(g) + hex_pair(b)
}

/// A hex digit in lowercase form.
pub open spec fn lower_hex_char(c: char) -> char {
    if 'A' <= c && c <= 'F' {
        hex_digits()[(c as u32 - 'A' as u32 + 10) as int]
    } else {
        c
    }
}

fn digit_value(c: char) -> (r: Option<u8>)
    ensures
        r is Some <==> hex_digit_value(c) is Some,
        r is Some ==> r->0 as nat == hex_digit_value(c)->0,
        r is Some ==> r->0 < 16,
{
    if '0' <= c && c <= '9' {
        Some((c as u32 - '0' as u32) as u8)
    } else if 'a' <= c && c <= 'f' {
        Some((c as u32 - 'a' as u32 + 10) as u8)
    } else if 'A' <= c && c <= 'F' {
        Some((c as u32 - 'A' as u32 + 10) as u8)
    } else {
        None
    }
}

fn channel(a: char, b: char) -> (r: u8)
    ensures
        r == channel_of(a, b),
{
    match (digit_value(a), digit_value(b)) {
        (Some(hi), Some(lo)) => hi * 16 + lo,
        (None, Some(lo)) => if a == '+' {
            lo
        } else {
            255
        },
        _ => 255,
    }
}

proof fn lemma_strip_skips(s: Seq<char>, i: int)
    requires
        0 <= i <= s.len(),
        forall|j: int| 0 <= j < i ==> s[j] == '#',
    ensures
        strip_markers(s) == strip_markers(s.subrange(i, s.len() as int)),
    decreases i,
{
    if i > 0 {
        assert(s[0] == '#');
        let t = s.drop_first();
        lemma_strip_skips(t, i - 1);
        assert(t.subrange(i - 1, t.len() as int) =~= s.subrange(i, s.len() as int));
    } else {
        assert(s.subrange(0, s.len() as int) =~= s);
    }
}

/// Parses a hex color such as `#89b4fa` or `89b4fa` into its channels.
/// Lengths and positions count characters.
pub fn parse_hex_color(hex: &str) -> (rgb: (u8, u8, u8))
    ensures
        rgb == color_of(hex@),
{
    let n = hex.unicode_len();
    let mut start: usize = 0;
    while start < n && hex.get_char(start) == '#'
        invariant
            n == hex@.len(),
            start <= n,
            forall|j: int| 0 <= j < start ==> hex@[j] == '#',
        decreases n - start,
    {
        start = start + 1;
    }
    proof {
        lemma_strip_skips(hex@, start as int);
        let t = hex@.subrange(start as int, n as int);
        assert(t.len() == 0 || t[0] != '#');
        assert(strip_markers(t) == t);
    }
    if n - start < 6 {
        return (255, 255, 255);
    }
    let r = channel(hex.get_char(start), hex.get_char(start + 1));
    let g = channel(hex.get_char(start + 2), hex.get_char(start + 3));
    let b = channel(hex.get_char(start + 4), hex.get_char(start + 5));
    (r, g, b)
}

pub(crate) fn push_hex_digit(out: &mut String, v: u8)
    requires
        v < 16,
    ensures
        final(out)@ == old(out)@.push(hex_char(v as nat)),
{
    let digits = "0123456789abcdef";
    proof {
        reveal_strlit("0123456789abcdef");
        assert(digits@ =~= hex_digits());
    }
    let d = digits.substring_char(v as usize, v as usize + 1);
    assert(d@ =~= seq![hex_char(v as nat)]);
    out.append(d);
}

/// Encodes a color as six lowercase hex digits with no leading marker.
pub fn color_to_hex(r: u8, g: u8, b: u8) -> (s: String)
    ensures
        s@ == hex_of(r, g, b),
{
    let mut out = String::new();
    push_hex_digit(&mut out, r / 16);
    push_hex_digit(&mut out, r % 16);
    push_hex_digit(&mut out, g / 16);
    push_hex_digit(&mut out, g % 16);
    push_hex_digit(&mut out, b / 16);
    push_hex_digit(&mut out, b % 16);
    assert(out@ =~= hex_of(r, g, b));
    out
}

proof fn lemma_digit_round_trip(c: char)
    requires
        is_hex_digit(c),
    ensures
        hex_digit_value(c)->0 < 16,
        hex_char(hex_digit_value(c)->0) == lower_hex_char(c),
{
}

proof fn lemma_pair_round_trip(a: char, b: char)
    requires
        is_hex_digit(a),
        is_hex_digit(b),
    ensures
        hex_pair(channel_of(a, b)) == seq![lower_hex_char(a), lower_hex_char(b)],
{
    lemma_digit_round_trip(a);
    lemma_digit_round_trip(b);
    let hi = hex_digit_value(a)->0;
    let lo = hex_digit_value(b)->0;
    let v = channel_of(a, b);
    assert(v as nat == hi * 16 + lo);
    assert(v as nat / 16 == hi && v as nat % 16 == lo) by (nonlinear_arith)
        requires
            v as nat == hi * 16 + lo,
            hi < 16,
            lo < 16,
    ;
    assert(hex_pair(v) =~= seq![lower_hex_char(a), lower_hex_char(b)]);
}

/// Parsing a hex color and encoding it again gives back its first six
/// digits in lowercase, whether or not the text carried leading markers.
pub proof fn lemma_hex_round_trip(s: Seq<char>)
    requires
        strip_markers(s).len() >= 6,
        forall|i: int| 0 <= i < 6 ==> is_hex_digit(#[trigger] strip_markers(s)[i]),
    ensures
        ({
            let (r, g, b) = color_of(s);
            hex_of(r, g, b) == strip_markers(s).subrange(0, 6).map_values(
                |c: char| lower_hex_char(c),
            )
        }),
{
    let h = strip_markers(s);
    assert(is_hex_digit(h[0]) && is_hex_digit(h[1]) && is_hex_digit(h[2]));
    assert(is_hex_digit(h[3]) && is_hex_digit(h[4]) && is_hex_digit(h[5]));
    lemma_pair_round_trip(h[0], h[1]);
    lemma_pair_round_trip(h[2], h[3]);
    lemma_pair_round_trip(h[4], h[5]);
    let (r, g, b) = color_of(s);
    assert(hex_of(r, g, b) =~= h.subrange(0, 6).map_values(|c: char| lower_hex_char(c)));
}

} // verus!
