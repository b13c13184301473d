//! Best-effort detection of the network-facing address to announce.
//!
//! The transport shell enumerates the machine's interfaces and hands them
//! here as plain values; [`pick_wifi_ip`] then chooses the address of the
//! first wireless-looking IPv4 interface, or failing that the first
//! non-loopback IPv4 interface at all. The name comparison is
//! case-insensitive and by substring, so `WLAN0` matches the pattern
//! `wlan`.

use vstd::prelude::*;
use crate::actions::models_of;

verus! {

/// One network interface, reduced to the plain values the selection
/// reads: its name, whether it carries an IPv4 address, whether it is a
/// loopback, and the address's text form.
#[derive(Clone, Debug)]
pub struct NetInterface {
    pub name: String,
    pub is_ipv4: bool,
    pub is_loopback: bool,
    pub addr: String,
}

/// Mathematical image of a [`NetInterface`].
pub ghost struct NetInterfaceModel {
    pub name: Seq<char>,
    pub is_ipv4: bool,
    pub is_loopback: bool,
    pub addr: Seq<char>,
}

impl View for NetInterface {
    type V = NetInterfaceModel;

    open spec fn view(&self) -> NetInterfaceModel {
        NetInterfaceModel {
            name: self.name@,
            is_ipv4: self.is_ipv4,
            is_loopback: self.is_loopback,
            addr: self.addr@,
        }
    }
}

/// What `str::to_lowercase` returns; it depends on the characters alone.
pub uninterp spec fn lower_of(s: Seq<char>) -> Seq<char>;

/// Relies on `str::to_lowercase`: the lowercase form of the string,
/// a function of its characters alone.
#[verifier::external_body]
fn lowercase(s: &str) -> (r: String)
    ensures
        r@ == lower_of(s@),
{
    s.to_lowercase()
}

/// Whether `needle` occurs as a contiguous run of characters inside
/// `haystack`.
pub open spec fn contains_seq(haystack: Seq<char>, needle: Seq<char>) -> bool {
    exists|i: int|
        0 <= i && i + needle.len() <= haystack.len() && #[trigger] haystack.subrange(
            i,
            i + needle.len(),
        ) == needle
}

/// Relies on `str::contains`: true exactly when the pattern matches a
/// sub-slice of the string.
#[verifier::external_body]
fn str_contains(haystack: &str, needle: &str) -> (r: bool)
    ensures
        r == contains_seq(haystack@, needle@),
{
    haystack.contains(needle)
}

/// Whether an interface looks like the wanted wireless uplink for one
/// name pattern: the pattern occurs in the name (both case-folded) and
/// the interface carries a non-loopback IPv4 address.
pub open spec fn nic_matches(nic: NetInterfaceModel, pattern: Seq<char>) -> bool {
    contains_seq(lower_of(nic.name), lower_of(pattern)) && nic.is_ipv4 && !nic.is_loopback
}

/// An interface usable as the fallback: non-loopback IPv4.
pub open spec fn nic_fallback(nic: NetInterfaceModel) -> bool {
    nic.is_ipv4 && !nic.is_loopback
}

/// The name patterns tried, most-preferred first.
pub open spec fn wifi_patterns() -> Seq<Seq<char>> {
    seq!["wlan"@, "wifi"@, "Wi-Fi"@, "en0"@, "en1"@, "wlp"@]
}

/// The first interface at or after `i` matching `pattern`.
pub open spec fn first_match_from(
    nics: Seq<NetInterfaceModel>,
    pattern: Seq<char>,
    i: int,
) -> Option<int>
    decreases nics.len() - i,
{
    if !(0 <= i < nics.len()) {
        None
    } else if nic_matches(nics[i], pattern) {
        Some(i)
    } else {
        first_match_from(nics, pattern, i + 1)
    }
}

/// The first interface matched by the first pattern (at or after index
/// `j` of the pattern list) that matches anything.
pub open spec fn first_by_patterns(nics: Seq<NetInterfaceModel>, j: int) -> Option<int>
    decreases wifi_patterns().len() - j,
{
    if !(0 <= j < wifi_patterns().len()) {
        None
    } else {
        match first_match_from(nics, wifi_patterns()[j], 0) {
            Some(i) => Some(i),
            None => first_by_patterns(nics, j + 1),
        }
    }
}

/// The first fallback interface at or after `i`.
pub open spec fn first_fallback_from(nics: Seq<NetInterfaceModel>, i: int) -> Option<int>
    decreases nics.len() - i,
{
    if !(0 <= i < nics.len()) {
        None
    } else if nic_fallback(nics[i]) {
        Some(i)
    } else {
        first_fallback_from(nics, i + 1)
    }
}

/// The address [`pick_wifi_ip`] announces: the first pattern match, then
/// the first non-loopback IPv4 interface, then nothing.
pub open spec fn spec_pick(nics: Seq<NetInterfaceModel>) -> Option<Seq<char>> {
    match first_by_patterns(nics, 0) {
        Some(i) => Some(nics[i].addr),
        None => match first_fallback_from(nics, 0) {
            Some(i) => Some(nics[i].addr),
            None => None,
        },
    }
}

fn find_match(nics: &Vec<NetInterface>, pattern: &str) -> (r: Option<usize>)
    ensures
        match r {
            Some(i) => i < nics@.len() && first_match_from(models_of(nics@), pattern@, 0) == Some(
                i as int,
            ),
            None => first_match_from(models_of(nics@), pattern@, 0) is None,
        },
{
    let n = nics.len();
    let mut i: usize = 0;
    while i < n
        invariant
            n == nics@.len(),
            i <= n,
            first_match_from(models_of(nics@), pattern@, 0) == first_match_from(
                models_of(nics@),
                pattern@,
                i as int,
            ),
        decreases n - i,
    {
        let lname = lowercase(nics[i].name.as_str());
        let lpat = lowercase(pattern);
        let hit = str_contains(lname.as_str(), lpat.as_str());
        proof {
            assert(models_of(nics@)[i as int] == nics@[i as int]@);
        }
        if hit && nics[i].is_ipv4 && !nics[i].is_loopback {
            return Some(i);
        }
        i = i + 1;
    }
    None
}

fn find_fallback(nics: &Vec<NetInterface>) -> (r: Option<usize>)
    ensures
        match r {
            Some(i) => i < nics@.len() && first_fallback_from(models_of(nics@), 0) == Some(
                i as int,
            ),
            None => first_fallback_from(models_of(nics@), 0) is None,
        },
{
    let n = nics.len();
    let mut i: usize = 0;
    while i < n
        invariant
            n == nics@.len(),
            i <= n,
            first_fallback_from(models_of(nics@), 0) == first_fallback_from(
                models_of(nics@),
                i as int,
            ),
        decreases n - i,
    {
        proof {
            assert(models_of(nics@)[i as int] == nics@[i as int]@);
        }
        if nics[i].is_ipv4 && !nics[i].is_loopback {
            return Some(i);
        }
        i = i + 1;
    }
    None
}

/// Chooses the address to announce from the machine's interfaces, per
/// [`spec_pick`]: the first interface whose case-folded name contains
/// one of the wireless name patterns (tried in order of preference) and
/// that carries a non-loopback IPv4 address; otherwise the first
/// non-loopback IPv4 interface; otherwise nothing.
pub fn pick_wifi_ip(nics: &Vec<NetInterface>) -> (r: Option<String>)
    ensures
        match r {
            Some(addr) => spec_pick(models_of(nics@)) == Some(addr@),
            None => spec_pick(models_of(nics@)) is None,
        },
{
    let m1 = find_match(nics, "wlan");
    let m2 = find_match(nics, "wifi");
    let m3 = find_match(nics, "Wi-Fi");
    let m4 = find_match(nics, "en0");
    let m5 = find_match(nics, "en1");
    let m6 = find_match(nics, "wlp");
    proof {
        let m = models_of(nics@);
        assert(wifi_patterns()[0] == "wlan"@);
        assert(wifi_patterns()[1] == "wifi"@);
        assert(wifi_patterns()[2] == "Wi-Fi"@);
        assert(wifi_patterns()[3] == "en0"@);
        assert(wifi_patterns()[4] == "en1"@);
        assert(wifi_patterns()[5] == "wlp"@);
        assert(first_by_patterns(m, 6) is None);
        assert(first_by_patterns(m, 5) == (match first_match_from(m, "wlp"@, 0) {
            Some(i) => Some(i),
            None => first_by_patterns(m, 6),
        }));
        assert(first_by_patterns(m, 4) == (match first_match_from(m, "en1"@, 0) {
            Some(i) => Some(i),
            None => first_by_patterns(m, 5),
        }));
        assert(first_by_patterns(m, 3) == (match first_match_from(m, "en0"@, 0) {
            Some(i) => Some(i),
            None => first_by_patterns(m, 4),
        }));
        assert(first_by_patterns(m, 2) == (match first_match_from(m, "Wi-Fi"@, 0) {
            Some(i) => Some(i),
            None => first_by_patterns(m, 3),
        }));
        assert(first_by_patterns(m, 1) == (match first_match_from(m, "wifi"@, 0) {
            Some(i) => Some(i),
            None => first_by_patterns(m, 2),
        }));
        assert(first_by_patterns(m, 0) == (match first_match_from(m, "wlan"@, 0) {
            Some(i) => Some(i),
            None => first_by_patterns(m, 1),
        }));
    }
    let picked: Option<usize> = match m1 {
        Some(i) => Some(i),
        None => match m2 {
            Some(i) => Some(i),
            None => match m3 {
                Some(i) => Some(i),
                None => match m4 {
                    Some(i) => Some(i),
                    None => match m5 {
                        Some(i) => Some(i),
                        None => match m6 {
                            Some(i) => Some(i),
                            None => find_fallback(nics),
                        },
                    },
                },
            },
        },
    };
    match picked {
        Some(i) => {
            proof {
                assert(models_of(nics@)[i as int] == nics@[i as int]@);
            }
            Some(nics[i].addr.clone())
        },
        None => None,
    }
}

} // verus!
