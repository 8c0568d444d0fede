use vstd::prelude::*;
use vstd::string::*;

verus! {

/// The character of a digit below sixteen, lower case for ten and above.
pub open spec fn digit_char(d: nat) -> char {
    if d == 0 { '0' } else if d == 1 { '1' } else if d == 2 { '2' } else if d == 3 { '3' }
    else if d == 4 { '4' } else if d == 5 { '5' } else if d == 6 { '6' } else if d == 7 { '7' }
    else if d == 8 { '8' } else if d == 9 { '9' } else if d == 10 { 'a' } else if d == 11 { 'b' }
    else if d == 12 { 'c' } else if d == 13 { 'd' } else if d == 14 { 'e' } else { 'f' }
}

/// The digits of `n` in base `b`, most significant first, with no leading zero.
pub open spec fn digits(n: nat, b: nat) -> Seq<char>
    recommends
        2 <= b <= 16,
    decreases n
    via digits_decreases
{
    if b < 2 || n < b {
        seq![digit_char(n % 16)]
    } else {
        digits(n / b, b).push(digit_char(n % b))
    }
}

#[via_fn]
proof fn digits_decreases(n: nat, b: nat) {
    if !(b < 2 || n < b) {
        assert(n / b < n) by (nonlinear_arith)
            requires
                b >= 2,
                n >= b,
        ;
    }
}

/// Decimal text of `n`.
pub open spec fn decimal(n: nat) -> Seq<char> {
    digits(n, 10)
}

/// Lower-case hexadecimal text of `n`.
pub open spec fn hex(n: nat) -> Seq<char> {
    digits(n, 16)
}

/// Dotted-quad text of four address bytes.
pub open spec fn ipv4_text(o: Seq<u8>) -> Seq<char> {
    decimal(o[0] as nat) + seq!['.'] + decimal(o[1] as nat) + seq!['.'] + decimal(o[2] as nat)
        + seq!['.'] + decimal(o[3] as nat)
}

/// The sixteen-bit group `g` of sixteen address bytes.
pub open spec fn group(o: Seq<u8>, g: int) -> nat {
    (o[2 * g] as nat) * 256 + o[2 * g + 1] as nat
}

/// Groups `a` up to `b` (exclusive) of sixteen address bytes in hexadecimal,
/// separated by colons.
pub open spec fn range_text(o: Seq<u8>, a: nat, b: nat) -> Seq<char>
    decreases b,
{
    if b <= a {
        Seq::empty()
    } else if b == a + 1 {
        hex(group(o, a as int))
    } else {
        range_text(o, a, (b - 1) as nat) + seq![':'] + hex(group(o, b - 1))
    }
}

/// How many zero groups follow in a row from group `i`.
pub open spec fn zero_run(o: Seq<u8>, i: nat) -> nat
    decreases 8 - i,
{
    if i >= 8 || group(o, i as int) != 0 {
        0
    } else {
        1 + zero_run(o, i + 1)
    }
}

/// Start and length of the first longest run of zero groups at or after
/// group `i`.
pub open spec fn longest_zero_run(o: Seq<u8>, i: nat) -> (nat, nat)
    decreases 8 - i,
{
    if i >= 8 {
        (8, 0)
    } else {
        let rest = longest_zero_run(o, i + 1);
        if zero_run(o, i) >= rest.1 {
            (i, zero_run(o, i))
        } else {
            rest
        }
    }
}

/// Ten zero bytes and two 0xff bytes: an IPv4 address mapped into IPv6.
pub open spec fn ipv4_mapped(o: Seq<u8>) -> bool {
    &&& forall|k: int| 0 <= k < 10 ==> o[k] == 0
    &&& o[10] == 0xff
    &&& o[11] == 0xff
}

/// Text of sixteen address bytes as RFC 5952 writes it: lower-case groups
/// without leading zeros, the first longest run of two or more zero groups
/// replaced by `::`, and a mapped IPv4 address as `::ffff:` and its dotted quad.
pub open spec fn ipv6_text(o: Seq<u8>) -> Seq<char> {
    if ipv4_mapped(o) {
        seq![':', ':', 'f', 'f', 'f', 'f', ':'] + ipv4_text(o.subrange(12, 16))
    } else {
        let run = longest_zero_run(o, 0);
        if run.1 < 2 {
            range_text(o, 0, 8)
        } else {
            range_text(o, 0, run.0) + seq![':', ':'] + range_text(o, run.0 + run.1, 8)
        }
    }
}

proof fn lemma_zero_run_bound(o: Seq<u8>, i: nat)
    ensures
        i <= 8 ==> zero_run(o, i) <= 8 - i,
    decreases 8 - i,
{
    if i < 8 {
        lemma_zero_run_bound(o, i + 1);
    }
}

proof fn lemma_longest_bound(o: Seq<u8>, i: nat)
    requires
        i <= 8,
    ensures
        longest_zero_run(o, i).0 + longest_zero_run(o, i).1 <= 8,
    decreases 8 - i,
{
    lemma_zero_run_bound(o, i);
    if i < 8 {
        lemma_longest_bound(o, i + 1);
    }
}

/// Text of a host and a port joined as a transport address; a host that
/// holds a colon is put in brackets.
pub open spec fn host_port_text(host: Seq<char>, port: Seq<char>) -> Seq<char> {
    if host.contains(':') {
        seq!['['] + host + seq![']', ':'] + port
    } else {
        host + seq![':'] + port
    }
}

fn digit_str(d: u32) -> (r: &'static str)
    requires
        d < 16,
    ensures
        r@ == seq![digit_char(d as nat)],
{
    proof {
        reveal_strlit("0"); reveal_strlit("1"); reveal_strlit("2"); reveal_strlit("3");
        reveal_strlit("4"); reveal_strlit("5"); reveal_strlit("6"); reveal_strlit("7");
        reveal_strlit("8"); reveal_strlit("9"); reveal_strlit("a"); reveal_strlit("b");
        reveal_strlit("c"); reveal_strlit("d"); reveal_strlit("e"); reveal_strlit("f");
    }
    let r = if d == 0 { "0" } else if d == 1 { "1" } else if d == 2 { "2" } else if d == 3 { "3" }
    else if d == 4 { "4" } else if d == 5 { "5" } else if d == 6 { "6" } else if d == 7 { "7" }
    else if d == 8 { "8" } else if d == 9 { "9" } else if d == 10 { "a" } else if d == 11 { "b" }
    else if d == 12 { "c" } else if d == 13 { "d" } else if d == 14 { "e" } else { "f" };
    assert(r@ =~= seq![digit_char(d as nat)]);
    r
}

/// Text of `n` in base `b` (ten or sixteen).
pub fn number_text(n: u32, b: u32) -> (r: String)
    requires
        b == 10 || b == 16,
    ensures
        r@ == digits(n as nat, b as nat),
    decreases n,
{
    if n < b {
        String::from_str(digit_str(n))
    } else {
        let mut s = number_text(n / b, b);
        s.append(digit_str(n % b));
        s
    }
}

fn append_char(s: &mut String, c: &str)
    ensures
        final(s)@ == old(s)@ + c@,
{
    s.append(c);
}

/// Dotted-quad text of the first four bytes of `o`.
pub fn ipv4_string(o: &[u8]) -> (r: String)
    requires
        o@.len() >= 4,
    ensures
        r@ == ipv4_text(o@),
{
    proof { reveal_strlit("."); }
    let mut s = number_text(o[0] as u32, 10);
    append_char(&mut s, ".");
    s.append(number_text(o[1] as u32, 10).as_str());
    append_char(&mut s, ".");
    s.append(number_text(o[2] as u32, 10).as_str());
    append_char(&mut s, ".");
    s.append(number_text(o[3] as u32, 10).as_str());
    s
}

/// Groups `a` up to `b` of the first sixteen bytes of `o`, in hexadecimal
/// and separated by colons.
fn range_string(o: &[u8], a: usize, b: usize) -> (r: String)
    requires
        a <= b <= 8,
        o@.len() >= 16,
    ensures
        r@ == range_text(o@, a as nat, b as nat),
{
    if a == b {
        return String::new();
    }
    let g0: u32 = o[2 * a] as u32 * 256 + o[2 * a + 1] as u32;
    let mut s = number_text(g0, 16);
    let mut i: usize = a + 1;
    while i < b
        invariant
            a < i <= b <= 8,
            o@.len() >= 16,
            s@ == range_text(o@, a as nat, i as nat),
        decreases b - i,
    {
        let g: u32 = o[2 * i] as u32 * 256 + o[2 * i + 1] as u32;
        proof { reveal_strlit(":"); }
        append_char(&mut s, ":");
        s.append(number_text(g, 16).as_str());
        assert(g as nat == group(o@, i as int));
        assert(s@ =~= range_text(o@, a as nat, (i + 1) as nat));
        i += 1;
    }
    s
}

/// Text of the first sixteen bytes of `o` as an IPv6 address, in the form
/// that `ipv6_text` states.
pub fn ipv6_string(o: &[u8]) -> (r: String)
    requires
        o@.len() >= 16,
    ensures
        r@ == ipv6_text(o@),
{
    let mut k: usize = 0;
    let mut leading_zeros = true;
    while k < 10
        invariant
            k <= 10,
            o@.len() >= 16,
            leading_zeros == forall|j: int| 0 <= j < k ==> o@[j] == 0,
        decreases 10 - k,
    {
        if o[k] != 0 {
            leading_zeros = false;
        }
        k += 1;
    }
    if leading_zeros && o[10] == 0xff && o[11] == 0xff {
        proof { reveal_strlit("::ffff:"); }
        let mut s = String::from_str("::ffff:");
        let v4 = ipv4_string(vstd::slice::slice_subrange(o, 12, 16));
        s.append(v4.as_str());
        return s;
    }
    let mut run: usize = 0;
    let mut best_start: usize = 8;
    let mut best_len: usize = 0;
    let mut i: usize = 8;
    while i > 0
        invariant
            i <= 8,
            o@.len() >= 16,
            run as nat == zero_run(o@, i as nat),
            (best_start as nat, best_len as nat) == longest_zero_run(o@, i as nat),
        decreases i,
    {
        proof {
            lemma_zero_run_bound(o@, i as nat);
        }
        i -= 1;
        let g: u32 = o[2 * i] as u32 * 256 + o[2 * i + 1] as u32;
        assert(g as nat == group(o@, i as int));
        if g == 0 {
            run = run + 1;
        } else {
            run = 0;
        }
        if run >= best_len {
            best_start = i;
            best_len = run;
        }
    }
    proof {
        lemma_longest_bound(o@, 0);
    }
    if best_len < 2 {
        range_string(o, 0, 8)
    } else {
        let mut s = range_string(o, 0, best_start);
        proof { reveal_strlit("::"); }
        s.append("::");
        let tail = range_string(o, best_start + best_len, 8);
        s.append(tail.as_str());
        s
    }
}

/// Whether `s` holds the character `c`.
pub fn contains_char(s: &str, c: char) -> (r: bool)
    ensures
        r == s@.contains(c),
{
    let n = s.unicode_len();
    let mut i: usize = 0;
    while i < n
        invariant
            i <= n,
            n == s@.len(),
            forall|k: int| 0 <= k < i ==> s@[k] != c,
        decreases n - i,
    {
        if s.get_char(i) == c {
            return true;
        }
        i += 1;
    }
    false
}

/// Joins a host and a port as `host:port`, or `[host]:port` where the host
/// holds a colon.
pub fn join_host_port(host: &str, port: &str) -> (r: String)
    ensures
        r@ == host_port_text(host@, port@),
{
    proof { reveal_strlit("["); reveal_strlit("]:"); reveal_strlit(":"); }
    if contains_char(host, ':') {
        let mut s = String::from_str("[");
        s.append(host);
        s.append("]:");
        s.append(port);
        assert(s@ =~= host_port_text(host@, port@));
        s
    } else {
        let mut s = String::from_str(host);
        s.append(":");
        s.append(port);
        s
    }
}

} // verus!
