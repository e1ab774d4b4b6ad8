//! The text form of addresses: dotted decimal for IPv4, colon-separated
//! hexadecimal groups for IPv6 with the widest run of zero groups left out.

use vstd::prelude::*;

verus! {

/// The character that stands for the digit `d`, for `d` below sixteen.
pub open spec fn digit_char(d: int) -> char {
    if d == 0 {
        '0'
    } else if d == 1 {
        '1'
    } else if d == 2 {
        '2'
    } else if d == 3 {
        '3'
    } else if d == 4 {
        '4'
    } else if d == 5 {
        '5'
    } else if d == 6 {
        '6'
    } else if d == 7 {
        '7'
    } else if d == 8 {
        '8'
    } else if d == 9 {
        '9'
    } else if d == 10 {
        'a'
    } else if d == 11 {
        'b'
    } else if d == 12 {
        'c'
    } else if d == 13 {
        'd'
    } else if d == 14 {
        'e'
    } else {
        'f'
    }
}

/// The decimal numeral of `n`, without leading zeros.
pub open spec fn dec_text(n: nat) -> Seq<char>
    decreases n,
{
    if n < 10 {
        seq![digit_char(n as int)]
    } else {
        dec_text(n / 10).push(digit_char((n % 10) as int))
    }
}

/// The hexadecimal numeral of `n` in lower case, without leading zeros.
pub open spec fn hex_text(n: nat) -> Seq<char>
    decreases n,
{
    if n < 16 {
        seq![digit_char(n as int)]
    } else {
        hex_text(n / 16).push(digit_char((n % 16) as int))
    }
}

/// The parts one after another, with `sep` between each two neighbours.
pub open spec fn joined(parts: Seq<Seq<char>>, sep: char) -> Seq<char>
    decreases parts.len(),
{
    if parts.len() == 0 {
        Seq::empty()
    } else if parts.len() == 1 {
        parts[0]
    } else {
        joined(parts.drop_last(), sep).push(sep) + parts.last()
    }
}

/// The decimal numerals of the bytes of `o`.
pub open spec fn dec_parts(o: Seq<u8>) -> Seq<Seq<char>> {
    Seq::new(o.len(), |i: int| dec_text(o[i] as nat))
}

/// The hexadecimal numerals of the groups of `g`.
pub open spec fn hex_parts(g: Seq<u16>) -> Seq<Seq<char>> {
    Seq::new(g.len(), |i: int| hex_text(g[i] as nat))
}

/// The text of an IPv4 address with bytes `o`: the decimal numerals of its
/// four bytes with a dot between them.
pub open spec fn ipv4_text(o: Seq<u8>) -> Seq<char> {
    joined(dec_parts(o), '.')
}

/// The eight groups of an IPv6 address with bytes `o`: each two neighbouring
/// bytes make one group, the first of them its upper half.
pub open spec fn groups(o: Seq<u8>) -> Seq<u16> {
    Seq::new(8, |i: int| (o[2 * i] * 256 + o[2 * i + 1]) as u16)
}

/// How many zero groups follow one another from position `i` on.
pub open spec fn zero_run(g: Seq<u16>, i: int) -> nat
    decreases g.len() - i,
{
    if 0 <= i < g.len() && g[i] == 0 {
        1 + zero_run(g, i + 1)
    } else {
        0
    }
}

/// The run of `len` zero groups from `start` on is the widest in `g`, and
/// the leftmost of the widest. Where `g` has no zero group at all this holds
/// of the empty run at position zero and of nothing else.
pub open spec fn is_widest_zero_run(g: Seq<u16>, start: int, len: int) -> bool {
    &&& 0 <= start <= g.len()
    &&& len == zero_run(g, start)
    &&& forall|j: int| 0 <= j < g.len() ==> zero_run(g, j) <= len
    &&& forall|j: int| 0 <= j < start ==> zero_run(g, j) < len
}

/// Where the leftmost widest run of zero groups starts, and its length.
pub open spec fn widest_zero_run(g: Seq<u16>) -> (int, int) {
    choose|p: (int, int)| is_widest_zero_run(g, p.0, p.1)
}

/// Whether the bytes `o` are an IPv4 address mapped into IPv6: ten zero
/// bytes, two bytes of all ones, then the four bytes of the IPv4 address.
pub open spec fn is_ipv4_mapped(o: Seq<u8>) -> bool {
    &&& o.len() == 16
    &&& forall|i: int| 0 <= i < 10 ==> o[i] == 0
    &&& o[10] == 0xff
    &&& o[11] == 0xff
}

/// The text of an IPv6 address with bytes `o`. A mapped IPv4 address is
/// written as `::ffff:` and the dotted IPv4 text. Any other address is
/// written as its groups in hexadecimal with colons between them, where the
/// leftmost widest run of two or more zero groups is left out and marked
/// by `::`.
pub open spec fn ipv6_text(o: Seq<u8>) -> Seq<char> {
    let g = groups(o);
    let (start, len) = widest_zero_run(g);
    if is_ipv4_mapped(o) {
        seq![':', ':', 'f', 'f', 'f', 'f', ':'] + ipv4_text(o.skip(12))
    } else if len >= 2 {
        joined(hex_parts(g.take(start)), ':') + seq![':', ':'] + joined(
            hex_parts(g.skip(start + len)),
            ':',
        )
    } else {
        joined(hex_parts(g), ':')
    }
}

/// The text of the address with bytes `o`, by its family.
pub open spec fn addr_text(o: Seq<u8>) -> Seq<char> {
    if o.len() == 4 {
        ipv4_text(o)
    } else {
        ipv6_text(o)
    }
}

/// At most one run is the leftmost widest run of zero groups.
pub proof fn lemma_widest_zero_run_unique(g: Seq<u16>, s1: int, l1: int, s2: int, l2: int)
    requires
        is_widest_zero_run(g, s1, l1),
        is_widest_zero_run(g, s2, l2),
    ensures
        s1 == s2,
        l1 == l2,
{
    // Each run is at most as wide as the other, so both are equally wide;
    // the one that started further left would then be narrower than itself.
    assert(zero_run(g, s1) <= l2);
    assert(zero_run(g, s2) <= l1);
}

/// The one-character string of a digit.
fn digit_str(d: u8) -> (r: &'static str)
    requires
        d < 16,
    ensures
        r@ == seq![digit_char(d as int)],
{
    proof {
        reveal_strlit("0");
        reveal_strlit("1");
        reveal_strlit("2");
        reveal_strlit("3");
        reveal_strlit("4");
        reveal_strlit("5");
        reveal_strlit("6");
        reveal_strlit("7");
        reveal_strlit("8");
        reveal_strlit("9");
        reveal_strlit("a");
        reveal_strlit("b");
        reveal_strlit("c");
        reveal_strlit("d");
        reveal_strlit("e");
        reveal_strlit("f");
    }
    match d {
        0 => "0",
        1 => "1",
        2 => "2",
        3 => "3",
        4 => "4",
        5 => "5",
        6 => "6",
        7 => "7",
        8 => "8",
        9 => "9",
        10 => "a",
        11 => "b",
        12 => "c",
        13 => "d",
        14 => "e",
        _ => "f",
    }
}

/// Appends the decimal numeral of `n` to `s`.
pub fn push_dec(s: &mut String, n: u8)
    ensures
        final(s)@ == old(s)@ + dec_text(n as nat),
{
    proof {
        reveal_with_fuel(dec_text, 3);
    }
    if n >= 100 {
        s.append(digit_str(n / 100));
    }
    if n >= 10 {
        s.append(digit_str((n / 10) % 10));
    }
    s.append(digit_str(n % 10));
}

/// Appends the hexadecimal numeral of `n` to `s`.
pub fn push_hex(s: &mut String, n: u16)
    ensures
        final(s)@ == old(s)@ + hex_text(n as nat),
{
    proof {
        reveal_with_fuel(hex_text, 4);
    }
    if n >= 0x1000 {
        s.append(digit_str((n / 0x1000) as u8));
    }
    if n >= 0x100 {
        s.append(digit_str(((n / 0x100) % 16) as u8));
    }
    if n >= 0x10 {
        s.append(digit_str(((n / 0x10) % 16) as u8));
    }
    s.append(digit_str((n % 16) as u8));
}

/// Joining one part more puts the separator and the part behind what was
/// joined so far; the first part stands alone.
pub proof fn lemma_joined_step(parts: Seq<Seq<char>>, sep: char, i: int)
    requires
        0 <= i < parts.len(),
    ensures
        joined(parts.take(i + 1), sep) == if i == 0 {
            parts[0]
        } else {
            joined(parts.take(i), sep).push(sep) + parts[i]
        },
{
    assert(parts.take(i + 1).drop_last() =~= parts.take(i));
}

/// Appends the dotted text of the bytes `o` to `s`.
pub fn push_ipv4_text(s: &mut String, o: &[u8])
    ensures
        final(s)@ == old(s)@ + ipv4_text(o@),
{
    let mut i: usize = 0;
    while i < o.len()
        invariant
            i <= o@.len(),
            s@ == old(s)@ + joined(dec_parts(o@).take(i as int), '.'),
        decreases o@.len() - i,
    {
        if i > 0 {
            s.append(".");
        }
        push_dec(s, o[i]);
        proof {
            lemma_joined_step(dec_parts(o@), '.', i as int);
            reveal_strlit(".");
        }
        i += 1;
    }
    assert(dec_parts(o@).take(o@.len() as int) =~= dec_parts(o@));
}

/// Appends the groups of `g` from position `from` up to `to`, in
/// hexadecimal with colons between them, to `s`.
fn push_groups(s: &mut String, g: &[u16; 8], from: usize, to: usize)
    requires
        from <= to <= 8,
    ensures
        final(s)@ == old(s)@ + joined(hex_parts(g@.subrange(from as int, to as int)), ':'),
{
    let ghost parts = hex_parts(g@.subrange(from as int, to as int));
    let mut i: usize = from;
    while i < to
        invariant
            from <= i <= to <= 8,
            parts == hex_parts(g@.subrange(from as int, to as int)),
            s@ == old(s)@ + joined(parts.take(i - from), ':'),
        decreases to - i,
    {
        if i > from {
            s.append(":");
        }
        push_hex(s, g[i]);
        proof {
            lemma_joined_step(parts, ':', i - from);
            reveal_strlit(":");
        }
        i += 1;
    }
    assert(parts.take(to - from) =~= parts);
}

/// The eight groups of the address with bytes `o`.
fn groups_of(o: &[u8; 16]) -> (g: [u16; 8])
    ensures
        g@ == groups(o@),
{
    let mut g: [u16; 8] = [0u16; 8];
    let mut i: usize = 0;
    while i < 8
        invariant
            i <= 8,
            forall|j: int| 0 <= j < i ==> g@[j] == groups(o@)[j],
        decreases 8 - i,
    {
        let hi: u16 = o[2 * i] as u16;
        let lo: u16 = o[2 * i + 1] as u16;
        g[i] = hi * 256 + lo;
        i += 1;
    }
    g
}

/// Finds the leftmost widest run of zero groups: where it starts and how
/// many groups it holds.
fn find_widest_zero_run(g: &[u16; 8]) -> (r: (usize, usize))
    ensures
        is_widest_zero_run(g@, r.0 as int, r.1 as int),
        r.0 + r.1 <= 8,
{
    let mut start: usize = 8;
    let mut len: usize = 0;
    let mut run: usize = 0;
    let mut i: usize = 8;
    while i > 0
        invariant
            i <= start <= 8,
            run == zero_run(g@, i as int),
            run <= 8 - i,
            len == zero_run(g@, start as int),
            start + len <= 8,
            forall|j: int| i <= j < 8 ==> zero_run(g@, j) <= len,
            forall|j: int| i <= j < start ==> zero_run(g@, j) < len,
        decreases i,
    {
        i -= 1;
        if g[i] == 0 {
            run += 1;
        } else {
            run = 0;
        }
        if run >= len {
            start = i;
            len = run;
        }
    }
    (start, len)
}

/// Whether the bytes `o` are an IPv4 address mapped into IPv6.
fn is_mapped(o: &[u8; 16]) -> (r: bool)
    ensures
        r == is_ipv4_mapped(o@),
{
    let mut i: usize = 0;
    while i < 10
        invariant
            i <= 10,
            forall|j: int| 0 <= j < i ==> o@[j] == 0,
        decreases 10 - i,
    {
        if o[i] != 0 {
            return false;
        }
        i += 1;
    }
    o[10] == 0xff && o[11] == 0xff
}

/// Appends the text of the IPv6 address with bytes `o` to `s`.
pub fn push_ipv6_text(s: &mut String, o: &[u8; 16])
    ensures
        final(s)@ == old(s)@ + ipv6_text(o@),
{
    if is_mapped(o) {
        proof {
            reveal_strlit("::ffff:");
        }
        s.append("::ffff:");
        let tail = vstd::slice::slice_subrange(o.as_slice(), 12, 16);
        push_ipv4_text(s, tail);
    } else {
        let g = groups_of(o);
        let (start, len) = find_widest_zero_run(&g);
        proof {
            let p = widest_zero_run(g@);
            lemma_widest_zero_run_unique(g@, start as int, len as int, p.0, p.1);
        }
        if len >= 2 {
            push_groups(s, &g, 0, start);
            proof {
                reveal_strlit("::");
            }
            s.append("::");
            push_groups(s, &g, start + len, 8);
        } else {
            push_groups(s, &g, 0, 8);
            proof {
                assert(g@.subrange(0, 8) =~= g@);
            }
        }
    }
}

} // verus!
