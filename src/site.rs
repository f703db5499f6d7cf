//! The per-host record, the stages it goes through, and the pipeline that
//! drives every record from creation to a verdict.
use vstd::prelude::*;
use reqwest::header::HeaderMap;
use crate::addr::{any_in_subnets, texts, IpAddress, Subnet};
use crate::headers::{
    bigip_by_header, empty_headers, header_entries, server_names_bigip, HeaderEntries,
};

verus! {

/// The outcome of classifying a host.
#[derive(Debug, Clone, Copy, PartialEq, Eq, Structural)]
pub enum Verdict {
    NotDetected,
    BigIPByHeader,
    BigIPBySubnet,
}

/// How far a record has come: each stage writes its own field once.
#[derive(Debug, Clone, Copy, PartialEq, Eq, Structural)]
pub enum Stage {
    Created,
    Resolved,
    Probed,
    Classified,
}

/// What the driver of the pipeline has to do next for a record.
#[derive(Debug, Clone, Copy, PartialEq, Eq, Structural)]
pub enum Step {
    Resolve,
    Probe,
    Classify,
    Done,
}

/// One host under investigation and what has been found about it.
#[derive(Debug)]
pub struct Site {
    pub host: String,
    pub addrs: Vec<IpAddress>,
    pub headers: HeaderMap,
    pub bigip: Verdict,
    pub stage: Stage,
}

/// What resolving and probing one host gave: `None` where the step failed.
#[derive(Debug)]
pub struct HostOutcome {
    pub addrs: Option<Vec<IpAddress>>,
    pub headers: Option<HeaderMap>,
}

/// The verdict for a host. Both heuristics are weighed: a `server` header that
/// names BigIP comes first, then an address in the subnet table; neither
/// gives `NotDetected`.
pub open spec fn verdict_of(headers: HeaderEntries, addrs: Seq<IpAddress>, nets: Seq<Subnet>) -> Verdict {
    if server_names_bigip(headers) {
        Verdict::BigIPByHeader
    } else if any_in_subnets(addrs, nets) {
        Verdict::BigIPBySubnet
    } else {
        Verdict::NotDetected
    }
}

/// What a name text becomes once trimmed by `str::trim`.
pub uninterp spec fn trim_of(s: Seq<char>) -> Seq<char>;

/// Relies on `str::trim`: leading and trailing white space is removed, and the
/// outcome depends on the text alone.
#[verifier::external_body]
fn trim_text(s: &str) -> (r: String)
    ensures
        r@ == trim_of(s@),
{
    s.trim().to_string()
}

/// The hosts of a list of lines: each line trimmed, blank lines left out, in
/// line order.
pub open spec fn hosts_of(lines: Seq<Seq<char>>) -> Seq<Seq<char>>
    decreases lines.len(),
{
    if lines.len() == 0 {
        Seq::empty()
    } else {
        let before = hosts_of(lines.drop_last());
        let host = trim_of(lines.last());
        if host.len() > 0 {
            before.push(host)
        } else {
            before
        }
    }
}

/// The addresses that a resolution outcome leaves on a record.
pub open spec fn resolved_addrs(outcome: Option<Vec<IpAddress>>) -> Seq<IpAddress> {
    match outcome {
        Some(v) => v@,
        None => Seq::empty(),
    }
}

/// The headers that a probe outcome leaves on a record.
pub open spec fn probed_entries(outcome: Option<HeaderMap>) -> HeaderEntries {
    match outcome {
        Some(h) => header_entries(h),
        None => HeaderEntries::empty(),
    }
}

impl Site {
    /// A record that has only just been created for `host`.
    pub open spec fn is_fresh(&self, host: Seq<char>) -> bool {
        &&& self.host@ == host
        &&& self.addrs@.len() == 0
        &&& header_entries(self.headers) == HeaderEntries::empty()
        &&& self.bigip == Verdict::NotDetected
        &&& self.stage == Stage::Created
    }

    /// The record `self` becomes when `from` has been resolved, probed and
    /// classified with the given outcome.
    pub open spec fn completes(&self, from: Site, outcome: HostOutcome, nets: Seq<Subnet>) -> bool {
        &&& self.host@ == from.host@
        &&& self.addrs@ == resolved_addrs(outcome.addrs)
        &&& header_entries(self.headers) == probed_entries(outcome.headers)
        &&& self.bigip == verdict_of(probed_entries(outcome.headers), resolved_addrs(outcome.addrs), nets)
        &&& self.stage == Stage::Classified
    }

    /// The record for one input line: the trimmed line as its host, or none
    /// where the line is blank.
    pub fn new(line: &str) -> (r: Option<Site>)
        ensures
            trim_of(line@).len() == 0 ==> r is None,
            trim_of(line@).len() > 0 ==> (r matches Some(s) && s.is_fresh(trim_of(line@))),
    {
        let host = trim_text(line);
        if host.as_str().is_empty() {
            None
        } else {
            Some(Site {
                host,
                addrs: Vec::new(),
                headers: empty_headers(),
                bigip: Verdict::NotDetected,
                stage: Stage::Created,
            })
        }
    }

    /// The step that the record's stage calls for.
    pub fn next_step(&self) -> (r: Step)
        ensures
            r == match self.stage {
                Stage::Created => Step::Resolve,
                Stage::Resolved => Step::Probe,
                Stage::Probed => Step::Classify,
                Stage::Classified => Step::Done,
            },
    {
        match self.stage {
            Stage::Created => Step::Resolve,
            Stage::Resolved => Step::Probe,
            Stage::Probed => Step::Classify,
            Stage::Classified => Step::Done,
        }
    }

    /// Records what resolution gave: the addresses in the resolver's order, or
    /// none where it failed. The record moves on either way.
    pub fn apply_resolution(&mut self, outcome: Option<Vec<IpAddress>>)
        requires
            old(self).stage == Stage::Created,
        ensures
            final(self).addrs@ == resolved_addrs(outcome),
            final(self).stage == Stage::Resolved,
            final(self).host == old(self).host,
            final(self).headers == old(self).headers,
            final(self).bigip == old(self).bigip,
    {
        match outcome {
            Some(addrs) => {
                self.addrs = addrs;
            },
            None => {
                self.addrs = Vec::new();
            },
        }
        self.stage = Stage::Resolved;
    }

    /// Records what the probe gave: the response headers, or none where it
    /// failed. The record moves on either way.
    pub fn apply_probe(&mut self, outcome: Option<HeaderMap>)
        requires
            old(self).stage == Stage::Resolved,
        ensures
            header_entries(final(self).headers) == probed_entries(outcome),
            outcome matches Some(h) ==> final(self).headers == h,
            final(self).stage == Stage::Probed,
            final(self).host == old(self).host,
            final(self).addrs == old(self).addrs,
            final(self).bigip == old(self).bigip,
    {
        match outcome {
            Some(headers) => {
                self.headers = headers;
            },
            None => {
                self.headers = empty_headers();
            },
        }
        self.stage = Stage::Probed;
    }

    /// Sets the verdict from the record's addresses and headers and the
    /// subnet table. Running it again on the classified record changes
    /// nothing.
    pub fn classify(&mut self, subnets: &[Subnet])
        requires
            old(self).stage == Stage::Probed || old(self).stage == Stage::Classified,
        ensures
            final(self).bigip == verdict_of(header_entries(old(self).headers), old(self).addrs@, subnets@),
            final(self).stage == Stage::Classified,
            final(self).host == old(self).host,
            final(self).addrs == old(self).addrs,
            final(self).headers == old(self).headers,
    {
        let verdict = if bigip_by_header(&self.headers) {
            Verdict::BigIPByHeader
        } else if crate::addr::bigip_by_ip(self.addrs.as_slice(), subnets) {
            Verdict::BigIPBySubnet
        } else {
            Verdict::NotDetected
        };
        self.bigip = verdict;
        self.stage = Stage::Classified;
    }

    /// Takes a fresh record through resolution, probing and classification.
    pub fn complete(&mut self, outcome: HostOutcome, subnets: &[Subnet])
        requires
            old(self).stage == Stage::Created,
        ensures
            final(self).completes(*old(self), outcome, subnets@),
    {
        let HostOutcome { addrs, headers } = outcome;
        self.apply_resolution(addrs);
        self.apply_probe(headers);
        self.classify(subnets);
    }
}

/// The records of a list of lines, one for each line that is not blank, in
/// line order, each with the trimmed line as its host.
pub fn sites_from_lines(lines: &Vec<String>) -> (r: Vec<Site>)
    ensures
        r@.len() == hosts_of(texts(lines@)).len(),
        forall|i: int| 0 <= i < r@.len() ==> (#[trigger] r@[i]).is_fresh(hosts_of(texts(lines@))[i]),
{
    let mut r: Vec<Site> = Vec::new();
    let mut i: usize = 0;
    while i < lines.len()
        invariant
            0 <= i <= lines@.len(),
            r@.len() == hosts_of(texts(lines@).take(i as int)).len(),
            forall|k: int| 0 <= k < r@.len() ==> (#[trigger] r@[k]).is_fresh(hosts_of(texts(lines@).take(i as int))[k]),
        decreases lines@.len() - i,
    {
        assert(texts(lines@).take(i + 1).drop_last() == texts(lines@).take(i as int));
        assert(texts(lines@).take(i + 1).last() == lines@[i as int]@);
        if let Some(site) = Site::new(lines[i].as_str()) {
            r.push(site);
        }
        i = i + 1;
    }
    assert(texts(lines@).take(lines@.len() as int) == texts(lines@));
    r
}

/// Takes every fresh record through the pipeline with the outcome gathered
/// for it at the same position. A failed resolution or probe leaves its
/// own record with no addresses or no headers and holds up no other record;
/// the records keep their order.
pub fn process_all(sites: Vec<Site>, outcomes: Vec<HostOutcome>, subnets: &[Subnet]) -> (r: Vec<Site>)
    requires
        sites@.len() == outcomes@.len(),
        forall|i: int| 0 <= i < sites@.len() ==> (#[trigger] sites@[i]).stage == Stage::Created,
    ensures
        r@.len() == sites@.len(),
        forall|i: int| 0 <= i < r@.len() ==> (#[trigger] r@[i]).completes(sites@[i], outcomes@[i], subnets@),
        forall|i: int| 0 <= i < r@.len() && outcomes@[i].addrs is None ==> (#[trigger] r@[i]).addrs@.len() == 0,
        forall|i: int| 0 <= i < r@.len() && outcomes@[i].headers is None
            ==> header_entries((#[trigger] r@[i]).headers) == HeaderEntries::empty(),
{
    let mut rest_sites = sites;
    let mut rest_outcomes = outcomes;
    let mut r: Vec<Site> = Vec::new();
    let n: usize = rest_sites.len();
    let mut i: usize = 0;
    while i < n
        invariant
            n == sites@.len(),
            0 <= i <= n,
            rest_sites@ == sites@.skip(i as int),
            rest_outcomes@ == outcomes@.skip(i as int),
            sites@.len() == outcomes@.len(),
            forall|k: int| 0 <= k < sites@.len() ==> (#[trigger] sites@[k]).stage == Stage::Created,
            r@.len() == i,
            forall|k: int| 0 <= k < i ==> (#[trigger] r@[k]).completes(sites@[k], outcomes@[k], subnets@),
        decreases n - i,
    {
        let mut site = rest_sites.remove(0);
        let outcome = rest_outcomes.remove(0);
        assert(sites@.skip(i as int)[0] == sites@[i as int]);
        assert(outcomes@.skip(i as int)[0] == outcomes@[i as int]);
        site.complete(outcome, subnets);
        r.push(site);
        assert(sites@.skip(i as int).remove(0) =~= sites@.skip(i + 1));
        assert(outcomes@.skip(i as int).remove(0) =~= outcomes@.skip(i + 1));
        i = i + 1;
    }
    r
}

/// Where no line is blank once trimmed, the hosts are exactly the trimmed
/// lines, one for one and in order.
pub proof fn lemma_hosts_are_trimmed_lines(lines: Seq<Seq<char>>)
    requires
        forall|i: int| 0 <= i < lines.len() ==> (#[trigger] trim_of(lines[i])).len() > 0,
    ensures
        hosts_of(lines) == lines.map_values(|l: Seq<char>| trim_of(l)),
    decreases lines.len(),
{
    if lines.len() > 0 {
        let before = lines.drop_last();
        assert forall|i: int| 0 <= i < before.len() implies (#[trigger] trim_of(before[i])).len() > 0 by {
            assert(before[i] == lines[i]);
        }
        lemma_hosts_are_trimmed_lines(before);
        assert(trim_of(lines.last()).len() > 0);
        assert(lines.map_values(|l: Seq<char>| trim_of(l)) =~= before.map_values(|l: Seq<char>| trim_of(l)).push(
            trim_of(lines.last()),
        ));
    }
}

/// Classifying depends on the addresses, the headers and the subnet table
/// alone: two records that agree on them get the same verdict, so running the
/// classifier again on an unchanged record gives the verdict it already has.
pub proof fn lemma_classification_is_stable(a: Site, b: Site, nets: Seq<Subnet>)
    requires
        header_entries(a.headers) == header_entries(b.headers),
        a.addrs@ == b.addrs@,
    ensures
        verdict_of(header_entries(a.headers), a.addrs@, nets) == verdict_of(header_entries(b.headers), b.addrs@, nets),
{
}

} // verus!
