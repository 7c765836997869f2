//! Finding network interfaces by name or address, and the PTP hardware clock of an
//! interface as `ethtool -T` reports it.

use crate::address::IpAddress;
use crate::error::ConfigError;
use crate::text::{
    decimal_digits, owned, parse_decimal, parse_unsigned, push_char, push_decimal, str_eq, str_trim,
    trim,
};
use vstd::prelude::*;
use vstd::string::StrSliceExecFns;

verus! {

/// The position of the first `\n` in `s` at or after position `i`.
pub open spec fn find_newline(s: Seq<char>, i: nat) -> Option<nat>
    decreases s.len() - i,
{
    if i >= s.len() {
        None
    } else if s[i as int] == '\n' {
        Some(i)
    } else {
        find_newline(s, i + 1)
    }
}

/// A newline found from `i` on lies at `i` or later, in the text.
pub proof fn lemma_find_newline_bounds(s: Seq<char>, i: nat)
    ensures
        find_newline(s, i) matches Some(j) ==> i <= j < s.len(),
    decreases s.len() - i,
{
    if i < s.len() && s[i as int] != '\n' {
        lemma_find_newline_bounds(s, i + 1);
    }
}

/// A line without the `\r` of a `\r\n` ending.
pub open spec fn strip_cr(line: Seq<char>) -> Seq<char> {
    if line.len() > 0 && line.last() == '\r' {
        line.drop_last()
    } else {
        line
    }
}

/// The lines of `s` from position `start` on.
pub open spec fn lines_from(s: Seq<char>, start: nat) -> Seq<Seq<char>>
    decreases s.len() - start,
{
    if start >= s.len() {
        Seq::empty()
    } else {
        match find_newline(s, start) {
            Some(i) => {
                proof {
                    lemma_find_newline_bounds(s, start);
                }
                seq![strip_cr(s.subrange(start as int, i as int))] + lines_from(s, i + 1)
            },
            None => seq![s.subrange(start as int, s.len() as int)],
        }
    }
}

/// The lines std's `str::lines` yields for a text: it is cut at each `\n` or `\r\n`, the
/// line endings are left out, and a final line ending adds no empty line.
pub open spec fn str_lines(s: Seq<char>) -> Seq<Seq<char>> {
    lines_from(s, 0)
}

/// `str::lines` (std), each line copied into a `String`: the lines are those of
/// [`str_lines`].
#[verifier::external_body]
fn lines(s: &str) -> (r: Vec<String>)
    ensures
        r@.map_values(|l: String| l@) == str_lines(s@),
{
    s.lines().map(|l| l.to_owned()).collect()
}

/// The line of `ethtool -T` that names the index of the interface's PTP hardware clock.
pub open spec fn phc_line_prefix() -> Seq<char> {
    "Hardware timestamp provider index:"@
}

/// The clock index a line names: the line starts with [`phc_line_prefix`] and the rest,
/// trimmed, is a `u32`.
pub open spec fn phc_index_of_line(line: Seq<char>) -> Option<nat> {
    let p = phc_line_prefix();
    if line.len() >= p.len() && line.take(p.len() as int) == p {
        parse_unsigned(str_trim(line.skip(p.len() as int)), u32::MAX as nat)
    } else {
        None
    }
}

/// The clock index named by the first line that names one.
pub open spec fn first_phc_index(lines: Seq<Seq<char>>) -> Option<nat>
    decreases lines.len(),
{
    if lines.len() == 0 {
        None
    } else {
        match phc_index_of_line(lines[0]) {
            Some(i) => Some(i),
            None => first_phc_index(lines.drop_first()),
        }
    }
}

/// The device of the PTP hardware clock with index `i`.
pub open spec fn phc_device_path(i: nat) -> Seq<char> {
    "/dev/ptp"@ + decimal_digits(i)
}

fn phc_index_in(line: &str) -> (r: Option<u64>)
    ensures
        match phc_index_of_line(line@) {
            Some(i) => r == Some(i as u64),
            None => r is None,
        },
{
    let prefix = "Hardware timestamp provider index:";
    proof {
        reveal_strlit("Hardware timestamp provider index:");
    }
    let n = line.unicode_len();
    let p = prefix.unicode_len();
    if n < p {
        return None;
    }
    assert(prefix@ == phc_line_prefix());
    let mut i: usize = 0;
    while i < p
        invariant
            prefix@ == phc_line_prefix(),
            p == prefix@.len(),
            n == line@.len(),
            p <= n,
            i <= p,
            forall|j: int| 0 <= j < i ==> line@[j] == prefix@[j],
        decreases p - i,
    {
        if line.get_char(i) != prefix.get_char(i) {
            assert(line@.take(p as int)[i as int] != prefix@[i as int]);
            assert(line@.take(p as int) != phc_line_prefix());
            return None;
        }
        i = i + 1;
    }
    assert(line@.take(p as int) =~= prefix@);
    let mut rest = String::new();
    let mut k: usize = p;
    while k < n
        invariant
            p <= k <= n,
            n == line@.len(),
            rest@ == line@.subrange(p as int, k as int),
        decreases n - k,
    {
        push_char(&mut rest, line.get_char(k));
        k = k + 1;
        assert(rest@ =~= line@.subrange(p as int, k as int));
    }
    assert(rest@ =~= line@.skip(p as int));
    let value = trim(rest.as_str());
    match parse_decimal(value, 0xFFFF_FFFF) {
        Some(v) => Some(v),
        None => None,
    }
}

/// The device of the interface's PTP hardware clock, read from the output of
/// `ethtool -T`: `/dev/ptp<index>` for the first line that names a clock index, `None`
/// where no line does.
pub fn phc_device_from_ethtool(output: &str) -> (r: Option<String>)
    ensures
        match first_phc_index(str_lines(output@)) {
            Some(i) => r matches Some(d) && d@ == phc_device_path(i),
            None => r is None,
        },
{
    let all = lines(output);
    let ghost views = all@.map_values(|l: String| l@);
    let mut i: usize = 0;
    assert(views.skip(0) =~= views);
    while i < all.len()
        invariant
            i <= all@.len(),
            views == all@.map_values(|l: String| l@),
            views == str_lines(output@),
            first_phc_index(views) == first_phc_index(views.skip(i as int)),
        decreases all@.len() - i,
    {
        proof {
            let rest = views.skip(i as int);
            assert(rest[0] == all@[i as int]@);
            assert(rest.drop_first() =~= views.skip(i + 1));
        }
        if let Some(idx) = phc_index_in(all[i].as_str()) {
            let mut path = owned("/dev/ptp");
            push_decimal(&mut path, idx);
            return Some(path);
        }
        i = i + 1;
    }
    assert(views.skip(all@.len() as int) =~= Seq::<Seq<char>>::empty());
    None
}

/// The position of the first interface named `name` in `names`, or `NoSuchNIC`.
pub fn find_nic_with_name(names: &Vec<String>, name: &String) -> (r: Result<usize, ConfigError>)
    ensures
        match r {
            Ok(i) => i < names@.len() && names@[i as int]@ == name@ && forall|j: int|
                0 <= j < i ==> names@[j]@ != name@,
            Err(e) => e == ConfigError::NoSuchNIC(*name) && forall|j: int|
                0 <= j < names@.len() ==> names@[j]@ != name@,
        },
{
    let mut i: usize = 0;
    while i < names.len()
        invariant
            i <= names@.len(),
            forall|j: int| 0 <= j < i ==> names@[j]@ != name@,
        decreases names@.len() - i,
    {
        if str_eq(names[i].as_str(), name.as_str()) {
            return Ok(i);
        }
        i = i + 1;
    }
    Err(ConfigError::NoSuchNIC(name.clone()))
}

/// Whether `ip` is among `ips`.
pub open spec fn has_address(ips: Seq<IpAddress>, ip: IpAddress) -> bool {
    exists|k: int| 0 <= k < ips.len() && ips[k] == ip
}

/// The position of the first interface that has the address `ip` among its addresses
/// `nic_ips`, or `NoSuchNIC` with `ip_text`, the address as text.
pub fn find_nic_for_ip(nic_ips: &Vec<Vec<IpAddress>>, ip: IpAddress, ip_text: String) -> (r: Result<usize, ConfigError>)
    ensures
        match r {
            Ok(i) => i < nic_ips@.len() && has_address(nic_ips@[i as int]@, ip) && forall|j: int|
                0 <= j < i ==> !has_address(#[trigger] nic_ips@[j]@, ip),
            Err(e) => e == ConfigError::NoSuchNIC(ip_text) && forall|j: int|
                0 <= j < nic_ips@.len() ==> !has_address(#[trigger] nic_ips@[j]@, ip),
        },
{
    let mut i: usize = 0;
    while i < nic_ips.len()
        invariant
            i <= nic_ips@.len(),
            forall|j: int| 0 <= j < i ==> !has_address(#[trigger] nic_ips@[j]@, ip),
        decreases nic_ips@.len() - i,
    {
        let ips = &nic_ips[i];
        let mut k: usize = 0;
        while k < ips.len()
            invariant
                i < nic_ips@.len(),
                *ips == nic_ips@[i as int],
                forall|j: int| 0 <= j < i ==> !has_address(#[trigger] nic_ips@[j]@, ip),
                k <= ips@.len(),
                forall|m: int| 0 <= m < k ==> ips@[m] != ip,
            decreases ips@.len() - k,
        {
            if ips[k] == ip {
                assert(nic_ips@[i as int]@[k as int] == ip);
                return Ok(i);
            }
            k = k + 1;
        }
        i = i + 1;
    }
    Err(ConfigError::NoSuchNIC(ip_text))
}

} // verus!
