//! Summaries of a scan: networks grouped by name, and counts by band,
//! security and standard.
use vstd::prelude::*;
use crate::text::same_text;
use crate::types::{texts, Network};

verus! {

// ============================================================================
// Distinct texts and occurrence counts
// ============================================================================

/// The texts of `s` without repeats, in the order in which they first occur.
pub open spec fn distinct_texts(s: Seq<Seq<char>>) -> Seq<Seq<char>>
    decreases s.len(),
{
    if s.len() == 0 {
        Seq::empty()
    } else {
        let d = distinct_texts(s.drop_last());
        if d.contains(s.last()) {
            d
        } else {
            d.push(s.last())
        }
    }
}

/// How often `x` occurs in `s`.
pub open spec fn occurrences(s: Seq<Seq<char>>, x: Seq<char>) -> nat
    decreases s.len(),
{
    if s.len() == 0 {
        0
    } else {
        occurrences(s.drop_last(), x) + if s.last() == x {
            1nat
        } else {
            0nat
        }
    }
}

/// No text occurs twice.
pub open spec fn no_repeats(s: Seq<Seq<char>>) -> bool {
    forall|i: int, j: int| 0 <= i < j < s.len() ==> s[i] != s[j]
}

/// `distinct_texts` holds each text of `s` once, and nothing else.
pub proof fn lemma_distinct_texts(s: Seq<Seq<char>>)
    ensures
        no_repeats(distinct_texts(s)),
        forall|x: Seq<char>| distinct_texts(s).contains(x) <==> s.contains(x),
        distinct_texts(s).len() <= s.len(),
    decreases s.len(),
{
    if s.len() > 0 {
        let p = s.drop_last();
        let d = distinct_texts(p);
        lemma_distinct_texts(p);
        assert forall|x: Seq<char>| s.contains(x) <==> (p.contains(x) || x == s.last()) by {
            if p.contains(x) {
                let i = choose|i: int| 0 <= i < p.len() && p[i] == x;
                assert(s[i] == x);
            }
            if x == s.last() {
                assert(s[s.len() - 1] == x);
            }
            if s.contains(x) {
                let i = choose|i: int| 0 <= i < s.len() && s[i] == x;
                if i < s.len() - 1 {
                    assert(p[i] == x);
                }
            }
        }
        if !d.contains(s.last()) {
            let e = d.push(s.last());
            assert forall|x: Seq<char>| e.contains(x) <==> (d.contains(x) || x == s.last()) by {
                if d.contains(x) {
                    let i = choose|i: int| 0 <= i < d.len() && d[i] == x;
                    assert(e[i] == x);
                }
                if x == s.last() {
                    assert(e[d.len() as int] == x);
                }
                if e.contains(x) {
                    let i = choose|i: int| 0 <= i < e.len() && e[i] == x;
                    if i < d.len() {
                        assert(d[i] == x);
                    }
                }
            }
            assert forall|i: int, j: int| 0 <= i < j < e.len() implies e[i] != e[j] by {
                if j == d.len() {
                    assert(d.contains(d[i]));
                }
            }
        }
    }
}

/// A list of (text, count) pairs read as texts and counts.
pub open spec fn tally_view(t: Seq<(String, u32)>) -> Seq<(Seq<char>, nat)> {
    t.map_values(|p: (String, u32)| (p.0@, p.1 as nat))
}

/// `t` counts the texts of `items`: one entry per distinct text, in the
/// order of first occurrence, with the number of times it occurs.
pub open spec fn counts(t: Seq<(Seq<char>, nat)>, items: Seq<Seq<char>>) -> bool {
    let d = distinct_texts(items);
    &&& t.len() == d.len()
    &&& forall|i: int|
        0 <= i < t.len() ==> (#[trigger] t[i]).0 == d[i] && t[i].1 == occurrences(items, d[i])
}

/// Count one more occurrence of `key`.
fn bump(tally: &mut Vec<(String, u32)>, key: &str, Ghost(items): Ghost<Seq<Seq<char>>>)
    requires
        counts(tally_view(old(tally)@), items),
        items.len() < u32::MAX,
    ensures
        counts(tally_view(final(tally)@), items.push(key@)),
{
    let ghost s = items.push(key@);
    proof {
        assert(s.drop_last() =~= items);
        lemma_distinct_texts(items);
        lemma_occurrences_bound(items, key@);
    }
    let mut i: usize = 0;
    while i < tally.len()
        invariant
            i <= tally.len(),
            counts(tally_view(tally@), items),
            forall|j: int| 0 <= j < i ==> tally@[j].0@ != key@,
        ensures
            i <= tally.len(),
            counts(tally_view(tally@), items),
            forall|j: int| 0 <= j < i ==> tally@[j].0@ != key@,
            i < tally.len() ==> tally@[i as int].0@ == key@,
        decreases tally.len() - i,
    {
        if same_text(tally[i].0.as_str(), key) {
            break;
        }
        i += 1;
    }
    let ghost d = distinct_texts(items);
    if i < tally.len() {
        let ghost before = tally_view(tally@);
        assert(before[i as int].0 == d[i as int]);
        assert(d.contains(key@));
        let (k, c) = tally.remove(i);
        proof {
            lemma_occurrences_bound(items, d[i as int]);
        }
        tally.insert(i, (k, c + 1));
        proof {
            assert(distinct_texts(s) == d);
            assert forall|j: int| 0 <= j < tally@.len() implies (#[trigger] tally_view(
                tally@,
            )[j]).0 == d[j] && tally_view(tally@)[j].1 == occurrences(s, d[j]) by {
                if j != i {
                    assert(tally_view(tally@)[j] == before[j]);
                    assert(d[j] != key@);
                }
            }
        }
    } else {
        let ghost before = tally_view(tally@);
        assert(!d.contains(key@)) by {
            if d.contains(key@) {
                let j = choose|j: int| 0 <= j < d.len() && d[j] == key@;
                assert(before[j].0 == d[j]);
            }
        }
        proof {
            lemma_occurrences_absent(items, key@);
        }
        tally.push((key.to_owned(), 1));
        proof {
            assert(distinct_texts(s) == d.push(key@));
            assert forall|j: int| 0 <= j < tally@.len() implies (#[trigger] tally_view(
                tally@,
            )[j]).0 == distinct_texts(s)[j] && tally_view(tally@)[j].1 == occurrences(
                s,
                distinct_texts(s)[j],
            ) by {
                if j < before.len() {
                    assert(tally_view(tally@)[j] == before[j]);
                    assert(d[j] != key@) by {
                        assert(d.contains(d[j]));
                    }
                }
            }
        }
    }
}

/// A text occurs no more often than the sequence is long.
pub proof fn lemma_occurrences_bound(s: Seq<Seq<char>>, x: Seq<char>)
    ensures
        occurrences(s, x) <= s.len(),
    decreases s.len(),
{
    if s.len() > 0 {
        lemma_occurrences_bound(s.drop_last(), x);
    }
}

/// A text that does not occur has no occurrences.
pub proof fn lemma_occurrences_absent(s: Seq<Seq<char>>, x: Seq<char>)
    requires
        !s.contains(x),
    ensures
        occurrences(s, x) == 0,
    decreases s.len(),
{
    if s.len() > 0 {
        assert(!s.drop_last().contains(x)) by {
            if s.drop_last().contains(x) {
                let i = choose|i: int| 0 <= i < s.drop_last().len() && s.drop_last()[i] == x;
                assert(s[i] == x);
            }
        }
        lemma_occurrences_absent(s.drop_last(), x);
    }
}

// ============================================================================
// Networks grouped by name
// ============================================================================

/// Networks that share a name, with what they offer together.
#[derive(Clone, Debug)]
pub struct NetworkGroup {
    pub ssid: String,
    pub networks: Vec<Network>,
    pub total_aps: u32,
    pub bands: Vec<String>,
    pub best_signal: i16,
    pub supports_fast_roaming: bool,
    pub supports_bss_transition: bool,
}

/// The name a network is grouped under: its SSID, or `[Hidden]` when it has
/// none.
pub open spec fn group_key(n: Network) -> Seq<char> {
    match n.ssid {
        Some(s) => s@,
        None => "[Hidden]"@,
    }
}

/// The group names of the networks, one per network.
pub open spec fn keys_of(nets: Seq<Network>) -> Seq<Seq<char>> {
    nets.map_values(|n: Network| group_key(n))
}

/// The band names of the networks, one per network.
pub open spec fn bands_of(nets: Seq<Network>) -> Seq<Seq<char>> {
    nets.map_values(|n: Network| n.band@)
}

/// The networks grouped under `key`, in scan order.
pub open spec fn members(nets: Seq<Network>, key: Seq<char>) -> Seq<Network>
    decreases nets.len(),
{
    if nets.len() == 0 {
        Seq::empty()
    } else {
        let m = members(nets.drop_last(), key);
        if group_key(nets.last()) == key {
            m.push(nets.last())
        } else {
            m
        }
    }
}

/// The strongest signal among the networks, and -100 dBm when none is
/// stronger.
pub open spec fn best_signal_of(nets: Seq<Network>) -> int
    decreases nets.len(),
{
    if nets.len() == 0 {
        -100
    } else {
        let b = best_signal_of(nets.drop_last());
        if nets.last().signal > b {
            nets.last().signal as int
        } else {
            b
        }
    }
}

/// Some network offers 802.11r fast transition.
pub open spec fn any_fast_roaming(nets: Seq<Network>) -> bool
    decreases nets.len(),
{
    nets.len() > 0 && (any_fast_roaming(nets.drop_last()) || nets.last().protocols.ft)
}

/// Some network offers 802.11v BSS transition management.
pub open spec fn any_bss_transition(nets: Seq<Network>) -> bool
    decreases nets.len(),
{
    nets.len() > 0 && (any_bss_transition(nets.drop_last()) || nets.last().protocols.bss_transition)
}

/// `g` is the group of the networks among `nets` named `key`.
pub open spec fn describes_group(g: NetworkGroup, nets: Seq<Network>, key: Seq<char>) -> bool {
    let m = members(nets, key);
    &&& g.ssid@ == key
    &&& g.networks@ == m
    &&& g.total_aps == m.len()
    &&& texts(g.bands@) == distinct_texts(bands_of(m))
    &&& g.best_signal == best_signal_of(m)
    &&& g.supports_fast_roaming == any_fast_roaming(m)
    &&& g.supports_bss_transition == any_bss_transition(m)
}

/// `gs` holds one group per name among `nets`, in the order in which the
/// names first occur.
pub open spec fn groups_of(gs: Seq<NetworkGroup>, nets: Seq<Network>) -> bool {
    let keys = distinct_texts(keys_of(nets));
    &&& gs.len() == keys.len()
    &&& forall|i: int| 0 <= i < gs.len() ==> describes_group(#[trigger] gs[i], nets, keys[i])
}

/// Adding a network adds it to its own group only.
pub proof fn lemma_members_push(nets: Seq<Network>, x: Network, key: Seq<char>)
    ensures
        members(nets.push(x), key) == if group_key(x) == key {
            members(nets, key).push(x)
        } else {
            members(nets, key)
        },
{
    assert(nets.push(x).drop_last() =~= nets);
}

/// A group has no more networks than the scan.
pub proof fn lemma_members_len(nets: Seq<Network>, key: Seq<char>)
    ensures
        members(nets, key).len() <= nets.len(),
    decreases nets.len(),
{
    if nets.len() > 0 {
        lemma_members_len(nets.drop_last(), key);
    }
}

/// A name that no network has names an empty group.
pub proof fn lemma_members_absent(nets: Seq<Network>, key: Seq<char>)
    requires
        !keys_of(nets).contains(key),
    ensures
        members(nets, key).len() == 0,
    decreases nets.len(),
{
    if nets.len() > 0 {
        let p = nets.drop_last();
        assert(!keys_of(p).contains(key)) by {
            if keys_of(p).contains(key) {
                let i = choose|i: int| 0 <= i < keys_of(p).len() && keys_of(p)[i] == key;
                assert(keys_of(nets)[i] == key);
            }
        }
        assert(keys_of(nets)[nets.len() - 1] == group_key(nets.last()));
        lemma_members_absent(p, key);
    }
}

/// Whether a list of strings holds the text `s`.
fn text_listed(v: &Vec<String>, s: &str) -> (b: bool)
    ensures
        b == texts(v@).contains(s@),
{
    let mut i: usize = 0;
    while i < v.len()
        invariant
            i <= v.len(),
            forall|j: int| 0 <= j < i ==> v@[j]@ != s@,
        decreases v.len() - i,
    {
        if same_text(v[i].as_str(), s) {
            assert(texts(v@)[i as int] == s@);
            return true;
        }
        i += 1;
    }
    assert(!texts(v@).contains(s@)) by {
        if texts(v@).contains(s@) {
            let j = choose|j: int| 0 <= j < texts(v@).len() && texts(v@)[j] == s@;
            assert(v@[j]@ == s@);
        }
    }
    false
}

/// Add a network to the group of its name.
fn add_member(g: &mut NetworkGroup, net: Network, Ghost(nets): Ghost<Seq<Network>>)
    requires
        describes_group(*old(g), nets, group_key(net)),
        nets.len() < u32::MAX,
    ensures
        describes_group(*final(g), nets.push(net), group_key(net)),
{
    let ghost key = group_key(net);
    let ghost m = members(nets, key);
    proof {
        lemma_members_push(nets, net, key);
        lemma_members_len(nets, key);
        assert(m.push(net).drop_last() =~= m);
        assert(bands_of(m.push(net)) =~= bands_of(m).push(net.band@));
        assert(bands_of(m.push(net)).drop_last() =~= bands_of(m));
    }
    if !text_listed(&g.bands, net.band.as_str()) {
        g.bands.push(net.band.clone());
        assert(texts(g.bands@) =~= texts(old(g).bands@).push(net.band@));
    }
    if net.signal > g.best_signal {
        g.best_signal = net.signal;
    }
    if net.protocols.ft {
        g.supports_fast_roaming = true;
    }
    if net.protocols.bss_transition {
        g.supports_bss_transition = true;
    }
    g.total_aps = g.total_aps + 1;
    g.networks.push(net);
}

/// Group networks by SSID; networks without one form the `[Hidden]` group.
///
/// Each group lists its networks in scan order, counts them, lists the
/// bands they use in order of first use, keeps the strongest signal (and
/// no less than -100 dBm), and says whether any of them offers fast or
/// managed BSS transition.  Groups come in the order in which their names
/// first occur.
pub fn group_networks(networks: Vec<Network>) -> (groups: Vec<NetworkGroup>)
    requires
        networks.len() <= u32::MAX,
    ensures
        groups_of(groups@, networks@),
{
    let ghost all = networks@;
    let mut groups: Vec<NetworkGroup> = Vec::new();
    let mut remaining = networks;
    let mut done: usize = 0;
    assert(all.take(0) =~= Seq::<Network>::empty());
    while remaining.len() > 0
        invariant
            all.len() <= u32::MAX,
            done + remaining.len() == all.len(),
            remaining@ == all.skip(done as int),
            groups_of(groups@, all.take(done as int)),
        decreases remaining.len(),
    {
        let ghost p = all.take(done as int);
        let net = remaining.remove(0);
        assert(net == all[done as int]);
        assert(all.take(done + 1) =~= p.push(net));
        assert(remaining@ =~= all.skip(done + 1));
        let ghost key = group_key(net);
        let ghost keys = distinct_texts(keys_of(p));
        proof {
            lemma_distinct_texts(keys_of(p));
            lemma_distinct_texts(keys_of(p.push(net)));
            assert(keys_of(p.push(net)) =~= keys_of(p).push(key));
            assert(keys_of(p.push(net)).drop_last() =~= keys_of(p));
        }
        let name: String = match &net.ssid {
            Some(s) => s.clone(),
            None => "[Hidden]".to_owned(),
        };
        assert(name@ == key);
        let mut gi: usize = 0;
        while gi < groups.len()
            invariant
                gi <= groups.len(),
                name@ == key,
                groups_of(groups@, p),
                forall|j: int| 0 <= j < gi ==> groups@[j].ssid@ != key,
            ensures
                gi <= groups.len(),
                forall|j: int| 0 <= j < gi ==> groups@[j].ssid@ != key,
                gi < groups.len() ==> groups@[gi as int].ssid@ == key,
            decreases groups.len() - gi,
        {
            if same_text(groups[gi].ssid.as_str(), name.as_str()) {
                break;
            }
            gi += 1;
        }
        if gi == groups.len() {
            assert(!keys.contains(key)) by {
                if keys.contains(key) {
                    let j = choose|j: int| 0 <= j < keys.len() && keys[j] == key;
                    assert(groups@[j].ssid@ == keys[j]);
                }
            }
            proof {
                lemma_members_absent(p, key);
            }
            let fresh = NetworkGroup {
                ssid: name,
                networks: Vec::new(),
                total_aps: 0,
                bands: Vec::new(),
                best_signal: -100,
                supports_fast_roaming: false,
                supports_bss_transition: false,
            };
            assert(members(p, key) =~= Seq::<Network>::empty());
            assert(bands_of(Seq::<Network>::empty()) =~= Seq::<Seq<char>>::empty());
            assert(texts(fresh.bands@) =~= Seq::<Seq<char>>::empty());
            groups.push(fresh);
        }
        let ghost before = groups@;
        proof {
            let nkeys = distinct_texts(keys_of(p.push(net)));
            if keys.contains(key) {
                assert(nkeys == keys);
            } else {
                assert(nkeys == keys.push(key));
            }
            assert(nkeys.len() == before.len());
            assert(nkeys[gi as int] == key);
            assert forall|j: int| 0 <= j < before.len() && j != gi implies describes_group(
                #[trigger] before[j],
                p,
                nkeys[j],
            ) by {
                assert(nkeys[j] == keys[j]);
            }
        }
        let mut g = groups.remove(gi);
        add_member(&mut g, net, Ghost(p));
        groups.insert(gi, g);
        proof {
            let nkeys = distinct_texts(keys_of(p.push(net)));
            assert forall|j: int| 0 <= j < groups@.len() implies describes_group(
                #[trigger] groups@[j],
                p.push(net),
                nkeys[j],
            ) by {
                if j != gi {
                    assert(groups@[j] == before[j]);
                    lemma_members_push(p, net, nkeys[j]);
                    assert(nkeys[j] != key) by {
                        assert(nkeys[gi as int] == key);
                    }
                }
            }
        }
        done += 1;
    }
    assert(all.take(all.len() as int) =~= all);
    groups
}

// ============================================================================
// Scan statistics
// ============================================================================

/// Counts over one scan.  Each count list holds one entry per distinct
/// name, in the order in which the names first occur.
#[derive(Clone, Debug)]
pub struct ScanStats {
    pub total_networks: u32,
    pub hidden_networks: u32,
    pub network_groups: u32,
    pub by_band: Vec<(String, u32)>,
    pub by_security: Vec<(String, u32)>,
    pub by_standard: Vec<(String, u32)>,
    pub scan_duration_ms: u64,
}

/// How many of the networks hide their name.
pub open spec fn hidden_count(nets: Seq<Network>) -> nat
    decreases nets.len(),
{
    if nets.len() == 0 {
        0
    } else {
        hidden_count(nets.drop_last()) + if nets.last().is_hidden {
            1nat
        } else {
            0nat
        }
    }
}

/// The SSIDs the networks carry, in scan order.
pub open spec fn ssids_of(nets: Seq<Network>) -> Seq<Seq<char>>
    decreases nets.len(),
{
    if nets.len() == 0 {
        Seq::empty()
    } else {
        let s = ssids_of(nets.drop_last());
        match nets.last().ssid {
            Some(name) => s.push(name@),
            None => s,
        }
    }
}

/// The security labels of the networks, one per network.
pub open spec fn securities_of(nets: Seq<Network>) -> Seq<Seq<char>> {
    nets.map_values(|n: Network| n.security@)
}

/// The standards every network lists, network after network.
pub open spec fn standards_of(nets: Seq<Network>) -> Seq<Seq<char>>
    decreases nets.len(),
{
    if nets.len() == 0 {
        Seq::empty()
    } else {
        standards_of(nets.drop_last()) + texts(nets.last().standards@)
    }
}

/// A count of names that have not yet been seen is empty.
proof fn lemma_counts_empty()
    ensures
        counts(tally_view(Seq::<(String, u32)>::empty()), Seq::empty()),
{
    assert(tally_view(Seq::<(String, u32)>::empty()) =~= Seq::<(Seq<char>, nat)>::empty());
}

/// Count what one scan found.
///
/// The totals count all networks and those that hide their name; the group
/// count is the number of distinct SSIDs; the lists count bands, security
/// labels and listed standards.
pub fn compute_stats(networks: Vec<Network>, duration_ms: u64) -> (stats: ScanStats)
    requires
        networks.len() <= u32::MAX,
        standards_of(networks@).len() <= u32::MAX,
    ensures
        stats.total_networks == networks.len(),
        stats.hidden_networks == hidden_count(networks@),
        stats.network_groups == distinct_texts(ssids_of(networks@)).len(),
        counts(tally_view(stats.by_band@), bands_of(networks@)),
        counts(tally_view(stats.by_security@), securities_of(networks@)),
        counts(tally_view(stats.by_standard@), standards_of(networks@)),
        stats.scan_duration_ms == duration_ms,
{
    let ghost all = networks@;
    let mut hidden: u32 = 0;
    let mut seen: Vec<String> = Vec::new();
    let mut by_band: Vec<(String, u32)> = Vec::new();
    let mut by_security: Vec<(String, u32)> = Vec::new();
    let mut by_standard: Vec<(String, u32)> = Vec::new();
    proof {
        lemma_counts_empty();
        assert(all.take(0) =~= Seq::<Network>::empty());
        assert(bands_of(Seq::<Network>::empty()) =~= Seq::<Seq<char>>::empty());
        assert(securities_of(Seq::<Network>::empty()) =~= Seq::<Seq<char>>::empty());
        assert(texts(seen@) =~= Seq::<Seq<char>>::empty());
    }
    let mut i: usize = 0;
    while i < networks.len()
        invariant
            networks@ == all,
            all.len() <= u32::MAX,
            standards_of(all).len() <= u32::MAX,
            i <= all.len(),
            hidden == hidden_count(all.take(i as int)),
            texts(seen@) == distinct_texts(ssids_of(all.take(i as int))),
            counts(tally_view(by_band@), bands_of(all.take(i as int))),
            counts(tally_view(by_security@), securities_of(all.take(i as int))),
            counts(tally_view(by_standard@), standards_of(all.take(i as int))),
        decreases all.len() - i,
    {
        let ghost p = all.take(i as int);
        let net = &networks[i];
        proof {
            assert(all.take(i + 1) =~= p.push(*net));
            assert(p.push(*net).drop_last() =~= p);
            assert(bands_of(p.push(*net)) =~= bands_of(p).push(net.band@));
            assert(securities_of(p.push(*net)) =~= securities_of(p).push(net.security@));
            lemma_hidden_bound(p);
            lemma_standards_prefix(all, i + 1);
        }
        if net.is_hidden {
            hidden = hidden + 1;
        }
        match &net.ssid {
            Some(name) => {
                proof {
                    lemma_distinct_texts(ssids_of(p));
                }
                let ghost d = distinct_texts(ssids_of(p));
                assert(ssids_of(p.push(*net)) == ssids_of(p).push(name@));
                assert(ssids_of(p).push(name@).drop_last() =~= ssids_of(p));
                if !text_listed(&seen, name.as_str()) {
                    seen.push(name.clone());
                    assert(texts(seen@) =~= d.push(name@));
                }
            },
            None => {
                assert(ssids_of(p.push(*net)) == ssids_of(p));
            },
        }
        bump(&mut by_band, net.band.as_str(), Ghost(bands_of(p)));
        bump(&mut by_security, net.security.as_str(), Ghost(securities_of(p)));
        let ghost q = standards_of(p);
        let mut k: usize = 0;
        assert(texts(net.standards@).take(0) =~= Seq::<Seq<char>>::empty());
        assert(q + Seq::<Seq<char>>::empty() =~= q);
        while k < net.standards.len()
            invariant
                k <= net.standards.len(),
                q + texts(net.standards@) == standards_of(p.push(*net)),
                standards_of(p.push(*net)).len() <= u32::MAX,
                counts(tally_view(by_standard@), q + texts(net.standards@).take(k as int)),
            decreases net.standards.len() - k,
        {
            let ghost before = q + texts(net.standards@).take(k as int);
            assert(before.len() < u32::MAX);
            bump(&mut by_standard, net.standards[k].as_str(), Ghost(before));
            assert(before.push(net.standards@[k as int]@) =~= q + texts(net.standards@).take(
                k + 1,
            ));
            k += 1;
        }
        assert(texts(net.standards@).take(net.standards.len() as int) =~= texts(
            net.standards@,
        ));
        i += 1;
    }
    assert(all.take(all.len() as int) =~= all);
    proof {
        lemma_distinct_texts(ssids_of(all));
        lemma_ssids_len(all);
    }
    ScanStats {
        total_networks: networks.len() as u32,
        hidden_networks: hidden,
        network_groups: seen.len() as u32,
        by_band,
        by_security,
        by_standard,
        scan_duration_ms: duration_ms,
    }
}

/// No more networks hide their name than there are networks.
proof fn lemma_hidden_bound(nets: Seq<Network>)
    ensures
        hidden_count(nets) <= nets.len(),
    decreases nets.len(),
{
    if nets.len() > 0 {
        lemma_hidden_bound(nets.drop_last());
    }
}

/// There are no more SSIDs than networks.
proof fn lemma_ssids_len(nets: Seq<Network>)
    ensures
        ssids_of(nets).len() <= nets.len(),
    decreases nets.len(),
{
    if nets.len() > 0 {
        lemma_ssids_len(nets.drop_last());
    }
}

/// The standards of a prefix of the scan are no more than those of it all.
proof fn lemma_standards_prefix(nets: Seq<Network>, i: int)
    requires
        0 <= i <= nets.len(),
    ensures
        standards_of(nets.take(i)).len() <= standards_of(nets).len(),
    decreases nets.len() - i,
{
    if i < nets.len() {
        lemma_standards_prefix(nets, i + 1);
        assert(nets.take(i + 1).drop_last() =~= nets.take(i));
    } else {
        assert(nets.take(i) =~= nets);
    }
}

} // verus!
