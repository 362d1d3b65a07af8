//! A registry of scanner plugins: each is kept under its name with what it
//! reported of itself when registered, and the registry picks a default
//! and a best scanner.
use vstd::prelude::*;
use crate::scanner_core::{Platform, ScannerCapabilities, ScannerInfo};
use crate::text::same_text;

verus! {

/// What a scanner reported of itself, by its values.
pub struct InfoModel {
    pub name: Seq<char>,
    pub description: Seq<char>,
    pub platforms: Seq<Platform>,
    pub capabilities: ScannerCapabilities,
    pub requires_privilege: bool,
    pub available: bool,
}

/// A scanner's report by its values.
pub open spec fn info_model(i: ScannerInfo) -> InfoModel {
    InfoModel {
        name: i.name@,
        description: i.description@,
        platforms: i.platforms@,
        capabilities: i.capabilities,
        requires_privilege: i.requires_privilege,
        available: i.available,
    }
}

/// A copy of a scanner's report.
pub fn copy_info(i: &ScannerInfo) -> (r: ScannerInfo)
    ensures
        info_model(r) == info_model(*i),
{
    let mut platforms: Vec<Platform> = Vec::new();
    let mut k: usize = 0;
    while k < i.platforms.len()
        invariant
            k <= i.platforms.len(),
            platforms@ == i.platforms@.take(k as int),
        decreases i.platforms.len() - k,
    {
        platforms.push(i.platforms[k]);
        assert(platforms@ =~= i.platforms@.take(k + 1));
        k += 1;
    }
    assert(platforms@ =~= i.platforms@);
    ScannerInfo {
        name: i.name.as_str().to_owned(),
        description: i.description.as_str().to_owned(),
        platforms,
        capabilities: i.capabilities,
        requires_privilege: i.requires_privilege,
        available: i.available,
    }
}

/// How much a scanner is preferred: IE data 100, BSSID 50, signal 30, no
/// privileges needed 70, App Store compatible 20.
pub open spec fn spec_score(caps: ScannerCapabilities, requires_privilege: bool) -> u32 {
    ((if caps.has_ie_data { 100int } else { 0 }) + (if caps.has_bssid { 50int } else { 0 }) + (
    if caps.has_signal { 30int } else { 0 }) + (if !requires_privilege { 70int } else { 0 }) + (
    if caps.app_store_compatible { 20int } else { 0 })) as u32
}

/// How much a scanner is preferred.
pub fn score_scanner(caps: ScannerCapabilities, requires_privilege: bool) -> (s: u32)
    ensures
        s == spec_score(caps, requires_privilege),
{
    let mut score: u32 = 0;
    if caps.has_ie_data {
        score += 100;
    }
    if caps.has_bssid {
        score += 50;
    }
    if caps.has_signal {
        score += 30;
    }
    if !requires_privilege {
        score += 70;
    }
    if caps.app_store_compatible {
        score += 20;
    }
    score
}

/// A scanner goes to the front of the default order when it gives IE data
/// without needing privileges.
pub open spec fn preferred(i: InfoModel) -> bool {
    i.capabilities.has_ie_data && !i.requires_privilege
}

/// Registered scanners, each under the name it reported, and the order in
/// which a default is looked for.
pub struct ScannerRegistry<S> {
    entries: Vec<(S, ScannerInfo)>,
    order: Vec<String>,
}

/// The registered scanners and their reports, in registration order.
pub open spec fn entries_view<S>(e: Seq<(S, ScannerInfo)>) -> Seq<(S, InfoModel)> {
    e.map_values(|p: (S, ScannerInfo)| (p.0, info_model(p.1)))
}

/// The names of a list of strings.
pub open spec fn names_view(o: Seq<String>) -> Seq<Seq<char>> {
    o.map_values(|s: String| s@)
}

/// Where the scanner named `name` stands, or -1.
pub open spec fn index_of<S>(e: Seq<(S, InfoModel)>, name: Seq<char>) -> int
    decreases e.len(),
{
    if e.len() == 0 {
        -1
    } else if e.last().1.name == name {
        e.len() - 1
    } else {
        index_of(e.drop_last(), name)
    }
}

/// The first name of `order` that names an available scanner.
pub open spec fn first_available<S>(e: Seq<(S, InfoModel)>, order: Seq<Seq<char>>) -> Option<
    Seq<char>,
>
    decreases order.len(),
{
    if order.len() == 0 {
        None
    } else if index_of(e, order[0]) >= 0 && e[index_of(e, order[0])].1.available {
        Some(order[0])
    } else {
        first_available(e, order.drop_first())
    }
}

impl<S> ScannerRegistry<S> {
    /// The registered scanners with their reports.
    pub closed spec fn spec_entries(&self) -> Seq<(S, InfoModel)> {
        entries_view(self.entries@)
    }

    /// The order in which a default scanner is looked for.
    pub closed spec fn spec_order(&self) -> Seq<Seq<char>> {
        names_view(self.order@)
    }

    /// Names are unique among the registered scanners.
    pub open spec fn wf(&self) -> bool {
        forall|i: int, j: int|
            0 <= i < j < self.spec_entries().len() ==> self.spec_entries()[i].1.name
                != self.spec_entries()[j].1.name
    }

    /// An empty registry.
    pub fn new() -> (r: Self)
        ensures
            r.wf(),
            r.spec_entries().len() == 0,
            r.spec_order().len() == 0,
    {
        let r = ScannerRegistry { entries: Vec::new(), order: Vec::new() };
        assert(r.spec_entries() =~= Seq::<(S, InfoModel)>::empty());
        assert(r.spec_order() =~= Seq::<Seq<char>>::empty());
        r
    }

    fn find(&self, name: &str) -> (r: Option<usize>)
        ensures
            match r {
                Some(i) => i < self.entries.len() && index_of(self.spec_entries(), name@) == i,
                None => index_of(self.spec_entries(), name@) == -1,
            },
    {
        let ghost e = self.spec_entries();
        let mut i = self.entries.len();
        assert(e.take(i as int) =~= e);
        while i > 0
            invariant
                e == self.spec_entries(),
                i <= self.entries.len(),
                index_of(e, name@) == index_of(e.take(i as int), name@),
            decreases i,
        {
            assert(e.take(i as int).drop_last() =~= e.take(i - 1));
            assert(e.take(i as int).last() == e[i - 1]);
            assert(e[i - 1].1.name == self.entries@[i - 1].1.name@);
            if same_text(self.entries[i - 1].1.name.as_str(), name) {
                return Some(i - 1);
            }
            i -= 1;
        }
        assert(e.take(0) =~= Seq::<(S, InfoModel)>::empty());
        None
    }

    /// Register a scanner with its report; a scanner of the same name is
    /// replaced.  A scanner that gives IE data without needing privileges
    /// goes to the front of the default order, any other to its back.
    pub fn register(&mut self, scanner: S, info: ScannerInfo)
        requires
            old(self).wf(),
        ensures
            final(self).wf(),
            final(self).spec_order() == if preferred(info_model(info)) {
                seq![info.name@] + old(self).spec_order()
            } else {
                old(self).spec_order().push(info.name@)
            },
            final(self).spec_entries() == registered(
                old(self).spec_entries(),
                scanner,
                info_model(info),
            ),
    {
        let ghost e0 = self.spec_entries();
        let ghost o0 = self.spec_order();
        proof {
            lemma_index_of(e0, info.name@);
        }
        let name = info.name.as_str().to_owned();
        if info.capabilities.has_ie_data && !info.requires_privilege {
            self.order.insert(0, name);
            assert(self.spec_order() =~= seq![info.name@] + o0);
        } else {
            self.order.push(name);
            assert(self.spec_order() =~= o0.push(info.name@));
        }
        let ghost im = info_model(info);
        match self.find(info.name.as_str()) {
            Some(i) => {
                self.entries.remove(i);
                self.entries.insert(i, (scanner, info));
                assert(self.spec_entries() =~= e0.update(i as int, (scanner, im)));
            },
            None => {
                self.entries.push((scanner, info));
                assert(self.spec_entries() =~= e0.push((scanner, im)));
            },
        }
    }

    /// The scanner registered under a name.
    pub fn get(&self, name: &str) -> (r: Option<&S>)
        ensures
            index_of(self.spec_entries(), name@) >= 0 ==> r == Some(
                &self.spec_entries()[index_of(self.spec_entries(), name@)].0,
            ),
            index_of(self.spec_entries(), name@) < 0 ==> r is None,
    {
        match self.find(name) {
            Some(i) => Some(&self.entries[i].0),
            None => None,
        }
    }

    /// The default scanner: the first of the default order that is
    /// available.
    pub fn get_default(&self) -> (r: Option<&S>)
        ensures
            match first_available(self.spec_entries(), self.spec_order()) {
                Some(n) => r == Some(&self.spec_entries()[index_of(self.spec_entries(), n)].0),
                None => r is None,
            },
    {
        let ghost e = self.spec_entries();
        let ghost o = self.spec_order();
        let mut k: usize = 0;
        assert(o.skip(0) =~= o);
        while k < self.order.len()
            invariant
                e == self.spec_entries(),
                o == self.spec_order(),
                k <= self.order.len(),
                first_available(e, o) == first_available(e, o.skip(k as int)),
            decreases self.order.len() - k,
        {
            assert(o.skip(k as int)[0] == self.order@[k as int]@);
            assert(o.skip(k as int).drop_first() =~= o.skip(k + 1));
            match self.find(self.order[k].as_str()) {
                Some(i) => {
                    proof {
                        lemma_index_of(e, self.order@[k as int]@);
                    }
                    if self.entries[i].1.available {
                        return Some(&self.entries[i].0);
                    }
                },
                None => {},
            }
            k += 1;
        }
        None
    }

    /// The best available scanner: one of the highest score among those
    /// available (which of several equal ones is not said), none when no
    /// scanner is available.
    pub fn get_best(&self) -> (r: Option<&S>)
        ensures
            r is None <==> (forall|i: int|
                0 <= i < self.spec_entries().len() ==> !(#[trigger] self.spec_entries()[i]).1.available),
            r is Some ==> exists|i: int|
                0 <= i < self.spec_entries().len() && r == Some(&self.spec_entries()[i].0)
                    && self.spec_entries()[i].1.available && forall|j: int|
                    0 <= j < self.spec_entries().len() && (#[trigger] self.spec_entries()[j]).1.available
                        ==> spec_score(self.spec_entries()[j].1.capabilities, self.spec_entries()[j].1.requires_privilege)
                        <= spec_score(
                        self.spec_entries()[i].1.capabilities,
                        self.spec_entries()[i].1.requires_privilege,
                    ),
    {
        let ghost e = self.spec_entries();
        let mut best: Option<usize> = None;
        let mut best_score: u32 = 0;
        let mut k: usize = 0;
        while k < self.entries.len()
            invariant
                e == self.spec_entries(),
                k <= self.entries.len(),
                best is None <==> (forall|i: int| 0 <= i < k ==> !(#[trigger] e[i]).1.available),
                best matches Some(b) ==> b < k && e[b as int].1.available && best_score == spec_score(
                    e[b as int].1.capabilities,
                    e[b as int].1.requires_privilege,
                ) && forall|j: int|
                    0 <= j < k && (#[trigger] e[j]).1.available ==> spec_score(e[j].1.capabilities, e[j].1.requires_privilege)
                        <= best_score,
            decreases self.entries.len() - k,
        {
            assert(e[k as int].1 == info_model(self.entries@[k as int].1));
            if self.entries[k].1.available {
                let s = score_scanner(self.entries[k].1.capabilities, self.entries[k].1.requires_privilege);
                match best {
                    None => {
                        best = Some(k);
                        best_score = s;
                    },
                    Some(_) => {
                        if s >= best_score {
                            best = Some(k);
                            best_score = s;
                        }
                    },
                }
            }
            k += 1;
        }
        match best {
            Some(b) => Some(&self.entries[b].0),
            None => None,
        }
    }

    /// The reports of all registered scanners, in registration order.
    pub fn list(&self) -> (r: Vec<ScannerInfo>)
        ensures
            r@.map_values(|i: ScannerInfo| info_model(i)) == self.spec_entries().map_values(
                |p: (S, InfoModel)| p.1,
            ),
    {
        let ghost e = self.spec_entries();
        let mut r: Vec<ScannerInfo> = Vec::new();
        let mut k: usize = 0;
        while k < self.entries.len()
            invariant
                e == self.spec_entries(),
                k <= self.entries.len(),
                r@.map_values(|i: ScannerInfo| info_model(i)) == e.take(k as int).map_values(
                    |p: (S, InfoModel)| p.1,
                ),
            decreases self.entries.len() - k,
        {
            let ghost before = r@;
            assert(e[k as int].1 == info_model(self.entries@[k as int].1));
            let c = copy_info(&self.entries[k].1);
            r.push(c);
            assert(r@.map_values(|i: ScannerInfo| info_model(i)) =~= before.map_values(
                |i: ScannerInfo| info_model(i),
            ).push(info_model(c)));
            assert(e.take(k + 1).map_values(|p: (S, InfoModel)| p.1) =~= e.take(k as int).map_values(
                |p: (S, InfoModel)| p.1,
            ).push(e[k as int].1));
            k += 1;
        }
        assert(e.take(e.len() as int) =~= e);
        r
    }

    /// The reports of the available scanners, in registration order.
    pub fn list_available(&self) -> (r: Vec<ScannerInfo>)
        ensures
            r@.map_values(|i: ScannerInfo| info_model(i)) == available_infos(self.spec_entries()),
    {
        let ghost e = self.spec_entries();
        let mut r: Vec<ScannerInfo> = Vec::new();
        let mut k: usize = 0;
        assert(e.take(0) =~= Seq::<(S, InfoModel)>::empty());
        while k < self.entries.len()
            invariant
                e == self.spec_entries(),
                k <= self.entries.len(),
                r@.map_values(|i: ScannerInfo| info_model(i)) == available_infos(e.take(k as int)),
            decreases self.entries.len() - k,
        {
            let ghost before = r@;
            assert(e.take(k + 1).drop_last() =~= e.take(k as int));
            assert(e[k as int].1 == info_model(self.entries@[k as int].1));
            if self.entries[k].1.available {
                let c = copy_info(&self.entries[k].1);
                r.push(c);
                assert(r@.map_values(|i: ScannerInfo| info_model(i)) =~= before.map_values(
                    |i: ScannerInfo| info_model(i),
                ).push(info_model(c)));
            }
            k += 1;
        }
        assert(e.take(e.len() as int) =~= e);
        r
    }

    /// How many scanners are registered.
    pub fn count(&self) -> (n: usize)
        ensures
            n == self.spec_entries().len(),
    {
        self.entries.len()
    }

    /// Forget every scanner.
    pub fn clear(&mut self)
        ensures
            final(self).wf(),
            final(self).spec_entries().len() == 0,
            final(self).spec_order().len() == 0,
    {
        self.entries.clear();
        self.order.clear();
        assert(self.spec_entries() =~= Seq::<(S, InfoModel)>::empty());
        assert(self.spec_order() =~= Seq::<Seq<char>>::empty());
    }

    /// Forget the scanner of a name; whether there was one.
    pub fn unregister(&mut self, name: &str) -> (removed: bool)
        requires
            old(self).wf(),
        ensures
            final(self).wf(),
            removed == (index_of(old(self).spec_entries(), name@) >= 0),
            final(self).spec_entries() == unregistered(old(self).spec_entries(), name@),
            final(self).spec_order() == without(old(self).spec_order(), name@),
    {
        let ghost e0 = self.spec_entries();
        let ghost o0 = self.spec_order();
        let mut kept: Vec<String> = Vec::new();
        let mut k: usize = 0;
        assert(o0.take(0) =~= Seq::<Seq<char>>::empty());
        while k < self.order.len()
            invariant
                o0 == self.spec_order(),
                k <= self.order.len(),
                names_view(kept@) == without(o0.take(k as int), name@),
            decreases self.order.len() - k,
        {
            assert(o0.take(k + 1).drop_last() =~= o0.take(k as int));
            assert(o0[k as int] == self.order@[k as int]@);
            if !same_text(self.order[k].as_str(), name) {
                let ghost before = kept@;
                kept.push(self.order[k].as_str().to_owned());
                assert(names_view(kept@) =~= names_view(before).push(o0[k as int]));
            }
            k += 1;
        }
        assert(o0.take(o0.len() as int) =~= o0);
        self.order = kept;
        match self.find(name) {
            Some(i) => {
                self.entries.remove(i);
                assert(self.spec_entries() =~= e0.remove(i as int));
                assert forall|a: int, b: int|
                    0 <= a < b < self.spec_entries().len() implies self.spec_entries()[a].1.name
                    != self.spec_entries()[b].1.name by {
                    let a0 = if a < i { a } else { a + 1 };
                    let b0 = if b < i { b } else { b + 1 };
                    assert(self.spec_entries()[a] == e0[a0]);
                    assert(self.spec_entries()[b] == e0[b0]);
                }
                true
            },
            None => false,
        }
    }
}

/// `s` without the occurrences of `x`.
pub open spec fn without(s: Seq<Seq<char>>, x: Seq<char>) -> Seq<Seq<char>>
    decreases s.len(),
{
    if s.len() == 0 {
        seq![]
    } else if s.last() == x {
        without(s.drop_last(), x)
    } else {
        without(s.drop_last(), x).push(s.last())
    }
}

/// The reports of the available scanners, in order.
pub open spec fn available_infos<S>(e: Seq<(S, InfoModel)>) -> Seq<InfoModel>
    decreases e.len(),
{
    if e.len() == 0 {
        seq![]
    } else if e.last().1.available {
        available_infos(e.drop_last()).push(e.last().1)
    } else {
        available_infos(e.drop_last())
    }
}

/// The entries after registering a scanner: one of the same name is
/// replaced in place, else it is added at the end.
pub open spec fn registered<S>(e: Seq<(S, InfoModel)>, s: S, i: InfoModel) -> Seq<(S, InfoModel)> {
    if index_of(e, i.name) >= 0 {
        e.update(index_of(e, i.name), (s, i))
    } else {
        e.push((s, i))
    }
}

/// The entries after unregistering a name.
pub open spec fn unregistered<S>(e: Seq<(S, InfoModel)>, name: Seq<char>) -> Seq<(S, InfoModel)> {
    if index_of(e, name) >= 0 {
        e.remove(index_of(e, name))
    } else {
        e
    }
}

/// No two entries share a name.
pub open spec fn unique_names<S>(e: Seq<(S, InfoModel)>) -> bool {
    forall|a: int, b: int| 0 <= a < b < e.len() ==> e[a].1.name != e[b].1.name
}

/// With unique names, the entry of a name is the one that has it.
pub proof fn lemma_index_unique<S>(e: Seq<(S, InfoModel)>, j: int)
    requires
        unique_names(e),
        0 <= j < e.len(),
    ensures
        index_of(e, e[j].1.name) == j,
    decreases e.len(),
{
    if j < e.len() - 1 {
        let p = e.drop_last();
        assert(e.last().1.name != e[j].1.name);
        assert(p[j] == e[j]);
        assert forall|a: int, b: int| 0 <= a < b < p.len() implies p[a].1.name != p[b].1.name by {
            assert(p[a] == e[a] && p[b] == e[b]);
        }
        lemma_index_unique(p, j);
    }
}

/// `index_of` finds the entry of the name, when there is one.
pub proof fn lemma_index_of<S>(e: Seq<(S, InfoModel)>, name: Seq<char>)
    ensures
        -1 <= index_of(e, name) < e.len(),
        index_of(e, name) >= 0 ==> e[index_of(e, name)].1.name == name,
        index_of(e, name) < 0 ==> forall|i: int| 0 <= i < e.len() ==> e[i].1.name != name,
    decreases e.len(),
{
    if e.len() > 0 {
        lemma_index_of(e.drop_last(), name);
        assert forall|i: int| 0 <= i < e.len() - 1 implies e[i] == e.drop_last()[i] by {}
    }
}

} // verus!
