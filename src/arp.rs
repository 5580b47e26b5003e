//! Turning the text of an ARP table into device records.
use vstd::prelude::*;
use crate::text::chars_of;

verus! {

broadcast use vstd::string::group_string_axioms;

/// A device seen on the local network.
#[derive(Debug, Clone, PartialEq, Eq)]
pub struct Device {
    /// IPv4 address, as written in the table.
    pub ip: String,
    /// Hardware address: six two-digit hex groups joined by `:`.
    pub mac: String,
}

impl View for Device {
    type V = (Seq<char>, Seq<char>);

    open spec fn view(&self) -> (Seq<char>, Seq<char>) {
        (self.ip@, self.mac@)
    }
}

/// Why the ARP table could not be read.
#[derive(Debug)]
pub enum NetworkScanError {
    /// The table command could not be run; holds the system's message.
    CommandError(String),
    /// The table command printed something that is not UTF-8.
    InvalidOutput,
}

pub open spec fn is_digit(c: char) -> bool {
    '0' <= c && c <= '9'
}

pub open spec fn is_hex(c: char) -> bool {
    is_digit(c) || ('a' <= c && c <= 'f') || ('A' <= c && c <= 'F')
}

/// How many decimal digits follow one another in `s` from `p` on.
pub open spec fn digit_run(s: Seq<char>, p: int) -> nat
    decreases s.len() - p,
{
    if 0 <= p < s.len() && is_digit(s[p]) {
        1 + digit_run(s, p + 1)
    } else {
        0
    }
}

/// A group of one to three digits at `p` closed by a dot: where the next group starts.
pub open spec fn dotted_group(s: Seq<char>, p: int) -> Option<int> {
    let n = digit_run(s, p);
    if 1 <= n <= 3 && p + n < s.len() && s[p + n] == '.' {
        Some(p + n + 1)
    } else {
        None
    }
}

/// Where the last group of an IPv4-shaped token at `i` starts: after three
/// dotted groups.
pub open spec fn last_group_start(s: Seq<char>, i: int) -> Option<int> {
    match dotted_group(s, i) {
        Some(a) => match dotted_group(s, a) {
            Some(b) => dotted_group(s, b),
            None => None,
        },
        None => None,
    }
}

/// The most digits that the last group at `c` can take: those that stand
/// there, up to three.
pub open spec fn last_group_max(s: Seq<char>, c: int) -> int {
    let n = digit_run(s, c);
    if n > 3 {
        3
    } else {
        n as int
    }
}

/// Whether a MAC-shaped token starts at `k`: six pairs of hex digits, joined
/// throughout by the same separator, `:` or `-`.
pub open spec fn mac_at(s: Seq<char>, k: int) -> bool {
    &&& 0 <= k
    &&& k + 17 <= s.len()
    &&& (s[k + 2] == ':' || s[k + 2] == '-')
    &&& forall|j: int|
        #![trigger s[k + j]]
        0 <= j < 17 ==> if j % 3 == 2 {
            s[k + j] == s[k + 2]
        } else {
            is_hex(s[k + j])
        }
}

/// The MAC-shaped token at `k` with its separators written as `:`.
pub open spec fn mac_text(s: Seq<char>, k: int) -> Seq<char> {
    Seq::new(17, |j: int| if j % 3 == 2 { ':' } else { s[k + j] })
}

/// The first MAC-shaped token at or after `from`.
pub open spec fn first_mac(s: Seq<char>, from: int) -> Option<int>
    decreases s.len() - from,
{
    if from < 0 || from + 17 > s.len() {
        None
    } else if mac_at(s, from) {
        Some(from)
    } else {
        first_mac(s, from + 1)
    }
}

/// Trying last groups of `len` digits, then fewer, down to one: the first
/// address end that some MAC token follows, with where that first MAC token
/// starts.
pub open spec fn ending_with_mac(s: Seq<char>, c: int, len: int) -> Option<(int, int)>
    decreases len,
{
    if len <= 0 {
        None
    } else {
        match first_mac(s, c + len) {
            Some(k) => Some((c + len, k)),
            None => ending_with_mac(s, c, len - 1),
        }
    }
}

/// The IPv4-shaped token at `i` that some MAC token follows, its last group
/// as long as that allows: the token's end and where the MAC token starts.
pub open spec fn pair_at(s: Seq<char>, i: int) -> Option<(int, int)> {
    match last_group_start(s, i) {
        Some(c) => ending_with_mac(s, c, last_group_max(s, c)),
        None => None,
    }
}

/// The first address token at or after `i` that some MAC token follows:
/// its start, its end, and where that first following MAC token starts.
pub open spec fn first_pair(s: Seq<char>, i: int) -> Option<(int, int, int)>
    decreases s.len() - i,
{
    if i < 0 || i >= s.len() {
        None
    } else {
        match pair_at(s, i) {
            Some((e, k)) => Some((i, e, k)),
            None => first_pair(s, i + 1),
        }
    }
}

/// The device that one line describes, as (address, normalized MAC), if any.
pub open spec fn line_device(line: Seq<char>) -> Option<(Seq<char>, Seq<char>)> {
    match first_pair(line, 0) {
        Some((i, e, k)) => Some((line.subrange(i, e), mac_text(line, k))),
        None => None,
    }
}

/// One entry for the line `t[start..]` that ends at the next newline, then those of the lines after it.
pub open spec fn devices_from(t: Seq<char>, start: int, p: int) -> Seq<(Seq<char>, Seq<char>)>
    decreases t.len() - p,
{
    if p < 0 || p >= t.len() {
        match line_device(t.subrange(start, t.len() as int)) {
            Some(d) => seq![d],
            None => Seq::empty(),
        }
    } else if t[p] == '\n' {
        let rest = devices_from(t, p + 1, p + 1);
        match line_device(t.subrange(start, p)) {
            Some(d) => seq![d] + rest,
            None => rest,
        }
    } else {
        devices_from(t, start, p + 1)
    }
}

/// A hardware address as records hold it: six pairs of hex digits joined by `:`.
pub open spec fn normalized_mac(m: Seq<char>) -> bool {
    &&& m.len() == 17
    &&& forall|j: int|
        #![trigger m[j]]
        0 <= j < 17 ==> if j % 3 == 2 {
            m[j] == ':'
        } else {
            is_hex(m[j])
        }
}

/// Whether `s[lo..hi]` are all decimal digits.
pub open spec fn all_digits(s: Seq<char>, lo: int, hi: int) -> bool {
    forall|j: int| lo <= j < hi ==> is_digit(#[trigger] s[j])
}

/// An address as records hold it: four groups of one to three digits,
/// joined by `.` (dots at `a`, `b` and `c`).
pub open spec fn ipv4_shaped(ip: Seq<char>) -> bool {
    exists|a: int, b: int, c: int|
        #![trigger ip[a], ip[b], ip[c]]
        {
            &&& 1 <= a <= 3
            &&& a + 2 <= b <= a + 4
            &&& b + 2 <= c <= b + 4
            &&& c + 2 <= ip.len() <= c + 4
            &&& ip[a] == '.' && ip[b] == '.' && ip[c] == '.'
            &&& all_digits(ip, 0, a) && all_digits(ip, a + 1, b)
            &&& all_digits(ip, b + 1, c) && all_digits(ip, c + 1, ip.len() as int)
        }
}

/// A record as the parser emits it: an IPv4-shaped address and a MAC with
/// `:` separators.
pub open spec fn record_shaped(d: (Seq<char>, Seq<char>)) -> bool {
    ipv4_shaped(d.0) && normalized_mac(d.1)
}

/// The devices that the lines of an ARP table describe, in line order.
pub open spec fn arp_devices(t: Seq<char>) -> Seq<(Seq<char>, Seq<char>)> {
    devices_from(t, 0, 0)
}

/// `r` read as an optional index.
pub open spec fn at_index(r: Option<usize>) -> Option<int> {
    match r {
        Some(x) => Some(x as int),
        None => None,
    }
}

fn digit(c: char) -> (r: bool)
    ensures
        r == is_digit(c),
{
    '0' <= c && c <= '9'
}

fn hex(c: char) -> (r: bool)
    ensures
        r == is_hex(c),
{
    ('0' <= c && c <= '9') || ('a' <= c && c <= 'f') || ('A' <= c && c <= 'F')
}

/// The length of the digit run at `p`, counted up to four.
fn digit_count(s: &Vec<char>, p: usize) -> (n: usize)
    requires
        p <= s.len(),
    ensures
        n <= 4,
        n <= s.len() - p,
        n < 4 ==> n == digit_run(s@, p as int),
        n == 4 ==> digit_run(s@, p as int) >= 4,
{
    let mut n: usize = 0;
    while n < 4 && n < s.len() - p && digit(s[p + n])
        invariant
            p <= s.len(),
            n <= 4,
            n <= s.len() - p,
            digit_run(s@, p as int) == n + digit_run(s@, p + n),
        decreases 4 - n,
    {
        n = n + 1;
    }
    n
}

fn next_dotted_group(s: &Vec<char>, p: usize) -> (r: Option<usize>)
    requires
        p <= s.len(),
    ensures
        at_index(r) == dotted_group(s@, p as int),
        r matches Some(x) ==> x <= s.len(),
{
    let n = digit_count(s, p);
    if 1 <= n && n <= 3 && n < s.len() - p && s[p + n] == '.' {
        Some(p + n + 1)
    } else {
        None
    }
}

fn last_group_at(s: &Vec<char>, i: usize) -> (r: Option<usize>)
    requires
        i <= s.len(),
    ensures
        at_index(r) == last_group_start(s@, i as int),
        r matches Some(x) ==> i < x <= s.len(),
{
    let a = match next_dotted_group(s, i) {
        Some(a) => a,
        None => return None,
    };
    let b = match next_dotted_group(s, a) {
        Some(b) => b,
        None => return None,
    };
    next_dotted_group(s, b)
}

fn mac_token_at(s: &Vec<char>, k: usize) -> (r: bool)
    requires
        k + 17 <= s.len(),
    ensures
        r == mac_at(s@, k as int),
{
    let sep = s[k + 2];
    if sep != ':' && sep != '-' {
        return false;
    }
    let mut j: usize = 0;
    while j < 17
        invariant
            j <= 17,
            k + 17 <= s.len(),
            sep == s@[k + 2],
            forall|m: int|
                #![trigger s@[k + m]]
                0 <= m < j ==> if m % 3 == 2 {
                    s@[k + m] == sep
                } else {
                    is_hex(s@[k + m])
                },
        decreases 17 - j,
    {
        let ok = if j % 3 == 2 {
            s[k + j] == sep
        } else {
            hex(s[k + j])
        };
        if !ok {
            assert(!mac_at(s@, k as int)) by {
                let m = j as int;
                assert(0 <= m < 17);
            }
            return false;
        }
        j = j + 1;
    }
    true
}

fn first_mac_from(s: &Vec<char>, from: usize) -> (r: Option<usize>)
    requires
        from <= s.len(),
    ensures
        at_index(r) == first_mac(s@, from as int),
        r matches Some(k) ==> k + 17 <= s.len(),
{
    let mut k: usize = from;
    while s.len() >= 17 && k <= s.len() - 17
        invariant
            from <= k,
            k <= s.len(),
            first_mac(s@, k as int) == first_mac(s@, from as int),
        decreases s.len() - k,
    {
        if mac_token_at(s, k) {
            return Some(k);
        }
        k = k + 1;
    }
    None
}

fn pair_from(s: &Vec<char>, i: usize) -> (r: Option<(usize, usize)>)
    requires
        i <= s.len(),
    ensures
        r matches Some((e, k)) ==> pair_at(s@, i as int) == Some((e as int, k as int)) && i < e
            <= s.len() && k + 17 <= s.len(),
        r is None ==> pair_at(s@, i as int) is None,
{
    let c = match last_group_at(s, i) {
        Some(c) => c,
        None => return None,
    };
    let n = digit_count(s, c);
    let mut len: usize = if n > 3 {
        3
    } else {
        n
    };
    while len > 0
        invariant
            i < c <= s.len(),
            last_group_start(s@, i as int) == Some(c as int),
            len <= s.len() - c,
            ending_with_mac(s@, c as int, len as int) == ending_with_mac(
                s@,
                c as int,
                last_group_max(s@, c as int),
            ),
        decreases len,
    {
        match first_mac_from(s, c + len) {
            Some(k) => {
                assert(ending_with_mac(s@, c as int, len as int) == Some(((c + len) as int, k as int)));
                return Some((c + len, k));
            },
            None => {},
        }
        len = len - 1;
    }
    None
}

fn first_pair_in(s: &Vec<char>) -> (r: Option<(usize, usize, usize)>)
    ensures
        r matches Some((i, e, k)) ==> first_pair(s@, 0) == Some((i as int, e as int, k as int))
            && i < e <= s.len() && k + 17 <= s.len(),
        r is None ==> first_pair(s@, 0) is None,
{
    let mut i: usize = 0;
    while i < s.len()
        invariant
            i <= s.len(),
            first_pair(s@, i as int) == first_pair(s@, 0),
        decreases s.len() - i,
    {
        match pair_from(s, i) {
            Some((e, k)) => return Some((i, e, k)),
            None => {},
        }
        i = i + 1;
    }
    None
}

/// The record for the line `text[start..end]`, built from the text itself.
fn device_of_line(text: &str, t: &Vec<char>, start: usize, end: usize) -> (r: Option<Device>)
    requires
        t@ == text@,
        start <= end <= t.len(),
    ensures
        r matches Some(d) ==> line_device(t@.subrange(start as int, end as int)) == Some(d@),
        r is None ==> line_device(t@.subrange(start as int, end as int)) is None,
{
    let mut line: Vec<char> = Vec::new();
    let mut q: usize = start;
    while q < end
        invariant
            start <= q <= end <= t.len(),
            line@ == t@.subrange(start as int, q as int),
        decreases end - q,
    {
        line.push(t[q]);
        q = q + 1;
    }
    let ghost l = line@;
    match first_pair_in(&line) {
        None => None,
        Some((i, e, k)) => {
            let ip = text.substring_char(start + i, start + e).to_string();
            assert(ip@ =~= l.subrange(i as int, e as int));
            let mut mac = text.substring_char(start + k, start + k + 2).to_string();
            let mut g: usize = 1;
            while g < 6
                invariant
                    1 <= g <= 6,
                    k + 17 <= l.len(),
                    l == t@.subrange(start as int, end as int),
                    t@ == text@,
                    start <= end <= t.len(),
                    mac@ =~= mac_text(l, k as int).take(3 * g - 1),
                decreases 6 - g,
            {
                let ghost prev = mac@;
                proof {
                    reveal_strlit(":");
                }
                mac.append(":");
                let pair = text.substring_char(start + k + 3 * g, start + k + 3 * g + 2);
                mac.append(pair);
                let ghost b = 3 * g as int;
                assert((b - 1) % 3 == 2 && b % 3 == 0 && (b + 1) % 3 == 1);
                assert(pair@ =~= l.subrange(k + b, k + b + 2));
                assert(mac@ =~= prev + seq![':'] + pair@);
                assert(mac@ =~= mac_text(l, k as int).take(3 * (g + 1) - 1));
                g = g + 1;
            }
            assert(mac@ =~= mac_text(l, k as int));
            Some(Device { ip, mac })
        },
    }
}

/// Reads an ARP table's text: one record per line that holds an IPv4-shaped
/// token followed by a MAC-shaped token, in line order, MAC separators
/// written as `:`. Other lines are skipped.
pub fn parse_arp_output(output: &str) -> (r: Vec<Device>)
    ensures
        r@.map_values(|d: Device| d@) == arp_devices(output@),
{
    let t = chars_of(output);
    let mut out: Vec<Device> = Vec::new();
    let mut start: usize = 0;
    let mut p: usize = 0;
    while p < t.len()
        invariant
            start <= p <= t.len(),
            t@ == output@,
            out@.map_values(|d: Device| d@) + devices_from(t@, start as int, p as int)
                == arp_devices(t@),
        decreases t.len() - p,
    {
        if t[p] == '\n' {
            let ghost before = out@.map_values(|d: Device| d@);
            match device_of_line(output, &t, start, p) {
                Some(d) => {
                    out.push(d);
                    assert(out@.map_values(|d: Device| d@) =~= before.push(d@));
                },
                None => {},
            }
            start = p + 1;
        }
        p = p + 1;
    }
    let ghost before = out@.map_values(|d: Device| d@);
    match device_of_line(output, &t, start, p) {
        Some(d) => {
            out.push(d);
            assert(out@.map_values(|d: Device| d@) =~= before.push(d@));
        },
        None => {},
    }
    out
}

proof fn lemma_digit_run_digits(s: Seq<char>, p: int, m: int)
    requires
        0 <= p,
        0 <= m <= digit_run(s, p),
    ensures
        all_digits(s, p, p + m),
        m > 0 ==> p + m <= s.len(),
    decreases m,
{
    if m > 0 {
        lemma_digit_run_digits(s, p + 1, m - 1);
    }
}

proof fn lemma_dotted_group_shape(s: Seq<char>, p: int)
    requires
        0 <= p,
        dotted_group(s, p) is Some,
    ensures
        dotted_group(s, p) matches Some(q) && p + 2 <= q <= p + 4 && q <= s.len() && s[q - 1]
            == '.' && all_digits(s, p, q - 1),
{
    lemma_digit_run_digits(s, p, digit_run(s, p) as int);
}

proof fn lemma_line_device_normalized(line: Seq<char>)
    ensures
        line_device(line) matches Some(d) ==> record_shaped(d),
{
    lemma_first_pair_mac(line, 0);
    if let Some((i, e, k)) = first_pair(line, 0) {
        let q1 = dotted_group(line, i)->Some_0;
        lemma_dotted_group_shape(line, i);
        let q2 = dotted_group(line, q1)->Some_0;
        lemma_dotted_group_shape(line, q1);
        let c = dotted_group(line, q2)->Some_0;
        lemma_dotted_group_shape(line, q2);
        assert(last_group_start(line, i) == Some(c));
        lemma_digit_run_digits(line, c, e - c);
        assert(e <= line.len());
        let ip = line.subrange(i, e);
        assert(forall|j: int| 0 <= j < ip.len() ==> #[trigger] ip[j] == line[i + j]);
        let (a, b, cc) = (q1 - 1 - i, q2 - 1 - i, c - 1 - i);
        assert(ip[a] == '.' && ip[b] == '.' && ip[cc] == '.');
        assert(all_digits(ip, 0, a) && all_digits(ip, a + 1, b) && all_digits(ip, b + 1, cc)
            && all_digits(ip, cc + 1, ip.len() as int)) by {
            assert forall|j: int| 0 <= j < ip.len() && j != a && j != b && j != cc implies is_digit(
                #[trigger] ip[j],
            ) by {
                assert(ip[j] == line[i + j]);
                if j < a {
                    assert(i <= i + j < q1 - 1);
                } else if j < b {
                    assert(q1 <= i + j < q2 - 1);
                } else if j < cc {
                    assert(q2 <= i + j < c - 1);
                } else {
                    assert(c <= i + j < e);
                }
            }
        }
        assert(ipv4_shaped(ip));
    }
}

proof fn lemma_first_pair_mac(s: Seq<char>, i: int)
    ensures
        first_pair(s, i) matches Some((a, e, k)) ==> (mac_at(s, k) && 0 <= a < e && pair_at(s, a)
            == Some((e, k)) && (last_group_start(s, a) matches Some(c) && c < e <= c
            + last_group_max(s, c))),
    decreases s.len() - i,
{
    if 0 <= i < s.len() {
        lemma_first_pair_mac(s, i + 1);
        if let Some(c) = last_group_start(s, i) {
            lemma_ending_with_mac(s, c, last_group_max(s, c));
        }
    }
}

proof fn lemma_ending_with_mac(s: Seq<char>, c: int, len: int)
    ensures
        ending_with_mac(s, c, len) matches Some((e, k)) ==> mac_at(s, k) && c < e <= c + len,
    decreases len,
{
    if len > 0 {
        lemma_first_mac_found(s, c + len);
        lemma_ending_with_mac(s, c, len - 1);
    }
}

proof fn lemma_first_mac_found(s: Seq<char>, from: int)
    ensures
        first_mac(s, from) matches Some(k) ==> mac_at(s, k),
    decreases s.len() - from,
{
    if !(from < 0 || from + 17 > s.len()) && !mac_at(s, from) {
        lemma_first_mac_found(s, from + 1);
    }
}

proof fn lemma_devices_from_normalized(t: Seq<char>, start: int, p: int)
    requires
        0 <= start <= p <= t.len(),
    ensures
        forall|n: int|
            0 <= n < devices_from(t, start, p).len() ==> record_shaped(
                #[trigger] devices_from(t, start, p)[n],
            ),
    decreases t.len() - p,
{
    if p < 0 || p >= t.len() {
        lemma_line_device_normalized(t.subrange(start, t.len() as int));
        if let Some(d) = line_device(t.subrange(start, t.len() as int)) {
            assert(devices_from(t, start, p) == seq![d]);
            assert(devices_from(t, start, p)[0] == d);
        }
        assert(p >= t.len());
    } else if t[p] == '\n' {
        lemma_devices_from_normalized(t, p + 1, p + 1);
        lemma_line_device_normalized(t.subrange(start, p));
        let rest = devices_from(t, p + 1, p + 1);
        if let Some(d) = line_device(t.subrange(start, p)) {
            assert forall|n: int| 0 <= n < devices_from(t, start, p).len() implies record_shaped(
                #[trigger] devices_from(t, start, p)[n],
            ) by {
                assert(devices_from(t, start, p) == seq![d] + rest);
                if n > 0 {
                    assert(devices_from(t, start, p)[n] == rest[n - 1]);
                }
            }
        }
    } else {
        lemma_devices_from_normalized(t, start, p + 1);
        assert(devices_from(t, start, p) == devices_from(t, start, p + 1));
    }
}

/// Every record read from a table holds an IPv4-shaped address and its
/// hardware address as six pairs of hex digits joined by `:`, whichever
/// separator the table used.
pub proof fn lemma_records_shaped(t: Seq<char>)
    ensures
        forall|n: int| 0 <= n < arp_devices(t).len() ==> record_shaped(#[trigger] arp_devices(t)[n]),
{
    lemma_devices_from_normalized(t, 0, 0);
}

} // verus!
