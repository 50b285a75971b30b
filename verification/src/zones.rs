//! The hosted zones of the DNS provider: which of a listing count, how a
//! listing in pages is followed to its end, and which zone a hostname
//! belongs to.

use crate::error::{ErrorView, ResponseError};
use crate::ipv4::Ipv4Addr;
use crate::text::{chars_of, same_text, texts_of};
use vstd::prelude::*;

verus! {

/// What the provider says of a zone beyond its name.
pub struct HostedZoneConfig {
    pub private_zone: Option<bool>,
}

/// A hosted zone as the provider lists it.
pub struct HostedZone {
    pub name: String,
    pub id: String,
    pub config: Option<HostedZoneConfig>,
}

/// A `HostedZone` as a mathematical value.
pub struct HostedZoneView {
    pub name: Seq<char>,
    pub id: Seq<char>,
    pub is_private: bool,
}

impl View for HostedZone {
    type V = HostedZoneView;

    open spec fn view(&self) -> HostedZoneView {
        HostedZoneView {
            name: self.name@,
            id: self.id@,
            is_private: self.config is Some && self.config->Some_0.private_zone == Some(true),
        }
    }
}

/// One page of the provider's listing.
pub struct ListHostedZonesResponse {
    pub hosted_zones: Vec<HostedZone>,
    pub is_truncated: bool,
    pub next_marker: Option<String>,
}

/// The views of a run of zones, one for one.
pub open spec fn zone_views(zones: Seq<HostedZone>) -> Seq<HostedZoneView> {
    Seq::new(zones.len(), |i: int| zones[i]@)
}

/// The views of a run of name and id pairs, one for one.
pub open spec fn pairs_of(v: Seq<(String, String)>) -> Seq<(Seq<char>, Seq<char>)> {
    Seq::new(v.len(), |i: int| (v[i].0@, v[i].1@))
}

/// `name` without its trailing dot, where it ends in one.
pub open spec fn without_trailing_dot(name: Seq<char>) -> Seq<char> {
    if name.len() > 0 && name.last() == '.' {
        name.drop_last()
    } else {
        name
    }
}

/// The zones of `zones` that are not private, in order, each as its name
/// without the trailing dot and its id.
pub open spec fn public_zones(zones: Seq<HostedZoneView>) -> Seq<(Seq<char>, Seq<char>)>
    decreases zones.len(),
{
    if zones.len() == 0 {
        Seq::empty()
    } else {
        let before = public_zones(zones.drop_last());
        let zone = zones.last();
        if zone.is_private {
            before
        } else {
            before.push((without_trailing_dot(zone.name), zone.id))
        }
    }
}

/// The marker to ask for the next page with, where the page says that the
/// listing goes on.
pub open spec fn next_marker_of(is_truncated: bool, next_marker: Option<Seq<char>>) -> Option<
    Seq<char>,
> {
    if is_truncated {
        next_marker
    } else {
        None
    }
}

/// The view of a marker that may be absent.
pub open spec fn marker_view(marker: Option<String>) -> Option<Seq<char>> {
    match marker {
        Some(m) => Some(m@),
        None => None,
    }
}

/// `name` without its trailing dot, where it ends in one.
pub fn strip_trailing_dot(name: &str) -> (stripped: String)
    ensures
        stripped@ == without_trailing_dot(name@),
{
    let chars = chars_of(name);
    let n = chars.len();
    if n > 0 && chars[n - 1] == '.' {
        let stripped = name.substring_char(0, n - 1).to_owned();
        assert(stripped@ =~= name@.drop_last());
        stripped
    } else {
        name.to_owned()
    }
}

/// The public zones of one page, and the marker of the next page where
/// there is one.
pub fn public_zones_of_page(page: ListHostedZonesResponse) -> (r: (
    Vec<(String, String)>,
    Option<String>,
))
    ensures
        pairs_of(r.0@) == public_zones(zone_views(page.hosted_zones@)),
        marker_view(r.1) == next_marker_of(page.is_truncated, marker_view(page.next_marker)),
{
    let ListHostedZonesResponse { hosted_zones, is_truncated, next_marker } = page;
    let next = if is_truncated {
        next_marker
    } else {
        None
    };
    let mut out: Vec<(String, String)> = Vec::new();
    let ghost all = zone_views(hosted_zones@);
    let mut i: usize = 0;
    assert(all.take(0) =~= Seq::<HostedZoneView>::empty());
    assert(pairs_of(out@) =~= Seq::<(Seq<char>, Seq<char>)>::empty());
    while i < hosted_zones.len()
        invariant
            i <= hosted_zones.len(),
            all == zone_views(hosted_zones@),
            pairs_of(out@) == public_zones(all.take(i as int)),
        decreases hosted_zones.len() - i,
    {
        let zone = &hosted_zones[i];
        proof {
            assert(all.take(i + 1).drop_last() =~= all.take(i as int));
            assert(all.take(i + 1).last() == zone@);
        }
        let private = match &zone.config {
            Some(c) => match c.private_zone {
                Some(p) => p,
                None => false,
            },
            None => false,
        };
        if !private {
            let name = strip_trailing_dot(zone.name.as_str());
            let id = zone.id.clone();
            let ghost before = pairs_of(out@);
            out.push((name, id));
            assert(pairs_of(out@) =~= before.push((without_trailing_dot(zone@.name), zone@.id)));
        }
        i += 1;
    }
    assert(all.take(i as int) =~= all);
    (out, next)
}

/// What one request for a page came to: the public zones of the page and
/// the next marker, or the provider's failure as an error.
pub fn list_hosted_zones(outcome: Result<ListHostedZonesResponse, String>) -> (r: Result<
    (Vec<(String, String)>, Option<String>),
    ResponseError,
>)
    ensures
        match outcome {
            Ok(page) => r is Ok && pairs_of(r->Ok_0.0@) == public_zones(
                zone_views(page.hosted_zones@),
            ) && marker_view(r->Ok_0.1) == next_marker_of(
                page.is_truncated,
                marker_view(page.next_marker),
            ),
            Err(text) => r is Err && r->Err_0@ == ErrorView::Route53Error(text@),
        },
{
    match outcome {
        Ok(page) => Ok(public_zones_of_page(page)),
        Err(text) => Err(ResponseError::Route53Error(text)),
    }
}

/// How far a listing in pages has come.
pub enum ZoneListing {
    /// A page is to be asked for with `marker`; `zones` are those of the
    /// pages so far.
    Fetching { zones: Vec<(String, String)>, marker: Option<String> },
    /// The listing is complete.
    Listed(Vec<(String, String)>),
    /// A request for a page failed.
    Failed(ResponseError),
}

/// A `ZoneListing` as a mathematical value.
pub enum ZoneListingView {
    Fetching { zones: Seq<(Seq<char>, Seq<char>)>, marker: Option<Seq<char>> },
    Listed(Seq<(Seq<char>, Seq<char>)>),
    Failed(ErrorView),
}

impl View for ZoneListing {
    type V = ZoneListingView;

    open spec fn view(&self) -> ZoneListingView {
        match self {
            ZoneListing::Fetching { zones, marker } => ZoneListingView::Fetching {
                zones: pairs_of(zones@),
                marker: marker_view(*marker),
            },
            ZoneListing::Listed(zones) => ZoneListingView::Listed(pairs_of(zones@)),
            ZoneListing::Failed(e) => ZoneListingView::Failed(e@),
        }
    }
}

/// What the provider answered to a request for a page, as a mathematical
/// value: the page, or the text of its failure.
pub enum PageView {
    Page { zones: Seq<HostedZoneView>, is_truncated: bool, next_marker: Option<Seq<char>> },
    Failure(Seq<char>),
}

/// The view of an answer to a request for a page.
pub open spec fn page_view(outcome: Result<ListHostedZonesResponse, String>) -> PageView {
    match outcome {
        Ok(page) => PageView::Page {
            zones: zone_views(page.hosted_zones@),
            is_truncated: page.is_truncated,
            next_marker: marker_view(page.next_marker),
        },
        Err(text) => PageView::Failure(text@),
    }
}

/// The listing after the answer `page` to the request that `listing` was
/// waiting for. A failure ends the listing. A page adds its public zones
/// behind those so far; the listing goes on with the page's marker where
/// the page is truncated and names one, and is complete otherwise. A
/// listing that waits for nothing stays as it is.
pub open spec fn listing_after(listing: ZoneListingView, page: PageView) -> ZoneListingView {
    match listing {
        ZoneListingView::Fetching { zones, marker } => match page {
            PageView::Failure(text) => ZoneListingView::Failed(ErrorView::Route53Error(text)),
            PageView::Page { zones: listed, is_truncated, next_marker } => {
                let all = zones + public_zones(listed);
                match next_marker_of(is_truncated, next_marker) {
                    Some(m) => ZoneListingView::Fetching { zones: all, marker: Some(m) },
                    None => ZoneListingView::Listed(all),
                }
            },
        },
        _ => listing,
    }
}

/// The listing after the answers `pages`, one after the other.
pub open spec fn listing_after_all(
    listing: ZoneListingView,
    pages: Seq<PageView>,
) -> ZoneListingView
    decreases pages.len(),
{
    if pages.len() == 0 {
        listing
    } else {
        listing_after(listing_after_all(listing, pages.drop_last()), pages.last())
    }
}

/// The public zones of all of `pages`, in order.
pub open spec fn all_public_zones(pages: Seq<PageView>) -> Seq<(Seq<char>, Seq<char>)>
    decreases pages.len(),
{
    if pages.len() == 0 {
        Seq::empty()
    } else {
        all_public_zones(pages.drop_last()) + match pages.last() {
            PageView::Page { zones, .. } => public_zones(zones),
            PageView::Failure(_) => Seq::empty(),
        }
    }
}

/// Whether `page` is a page after which the listing goes on.
pub open spec fn goes_on(page: PageView) -> bool {
    page matches PageView::Page { is_truncated, next_marker, .. } && next_marker_of(
        is_truncated,
        next_marker,
    ) is Some
}

/// Whether `page` is a page that ends the listing.
pub open spec fn is_last_page(page: PageView) -> bool {
    page matches PageView::Page { is_truncated, next_marker, .. } && next_marker_of(
        is_truncated,
        next_marker,
    ) is None
}

impl ZoneListing {
    /// A listing that has asked for nothing yet: its first request names
    /// no marker.
    pub fn start() -> (listing: ZoneListing)
        ensures
            listing@ == (ZoneListingView::Fetching { zones: Seq::empty(), marker: None }),
    {
        let listing = ZoneListing::Fetching { zones: Vec::new(), marker: None };
        assert(listing@->Fetching_zones =~= Seq::<(Seq<char>, Seq<char>)>::empty());
        listing
    }

    /// Takes in the answer to the request that the listing was waiting for.
    pub fn accept(self, outcome: Result<ListHostedZonesResponse, String>) -> (next: ZoneListing)
        ensures
            next@ == listing_after(self@, page_view(outcome)),
    {
        match self {
            ZoneListing::Fetching { zones, marker: _ } => match list_hosted_zones(outcome) {
                Err(e) => ZoneListing::Failed(e),
                Ok((more_zones, new_marker)) => {
                    let mut zones = zones;
                    let mut more_zones = more_zones;
                    let ghost before = pairs_of(zones@);
                    let ghost added = pairs_of(more_zones@);
                    zones.append(&mut more_zones);
                    assert(pairs_of(zones@) =~= before + added);
                    match new_marker {
                        Some(m) => ZoneListing::Fetching { zones, marker: Some(m) },
                        None => ZoneListing::Listed(zones),
                    }
                },
            },
            ZoneListing::Listed(zones) => ZoneListing::Listed(zones),
            ZoneListing::Failed(e) => ZoneListing::Failed(e),
        }
    }
}

/// While every page says that the listing goes on, the listing waits for
/// the next page and holds the public zones of all pages so far.
pub proof fn lemma_listing_goes_on(pages: Seq<PageView>)
    requires
        forall|i: int| 0 <= i < pages.len() ==> goes_on(#[trigger] pages[i]),
    ensures
        listing_after_all(ZoneListingView::Fetching { zones: Seq::empty(), marker: None }, pages)
            matches ZoneListingView::Fetching { zones, .. } && zones == all_public_zones(pages),
    decreases pages.len(),
{
    if pages.len() > 0 {
        lemma_listing_goes_on(pages.drop_last());
        assert(goes_on(pages.last()));
    }
}

/// A listing that is followed from its first page to the first page that
/// ends it is complete, and holds the public zones of all its pages in the
/// order in which they were listed.
pub proof fn lemma_listing_is_complete(pages: Seq<PageView>)
    requires
        pages.len() > 0,
        forall|i: int| 0 <= i < pages.len() - 1 ==> goes_on(#[trigger] pages[i]),
        is_last_page(pages.last()),
    ensures
        listing_after_all(ZoneListingView::Fetching { zones: Seq::empty(), marker: None }, pages)
            == ZoneListingView::Listed(all_public_zones(pages)),
{
    lemma_listing_goes_on(pages.drop_last());
}

/// Whether `s` ends with `suffix`.
pub open spec fn ends_with(s: Seq<char>, suffix: Seq<char>) -> bool {
    suffix.len() <= s.len() && s.skip(s.len() - suffix.len()) == suffix
}

/// The id of the first zone of `zones`, in listing order, whose name
/// `host` ends with; `None` where it ends with none.
pub open spec fn zone_for(host: Seq<char>, zones: Seq<(Seq<char>, Seq<char>)>) -> Option<Seq<char>>
    decreases zones.len(),
{
    if zones.len() == 0 {
        None
    } else if ends_with(host, zones[0].0) {
        Some(zones[0].1)
    } else {
        zone_for(host, zones.drop_first())
    }
}

/// First match, not best match: a hostname belongs to the zone that is
/// listed first among those whose name it ends with, whichever names the
/// zones behind it have.
pub proof fn lemma_first_match_wins(host: Seq<char>, zones: Seq<(Seq<char>, Seq<char>)>, k: int)
    requires
        0 <= k < zones.len(),
        ends_with(host, zones[k].0),
        forall|j: int| 0 <= j < k ==> !ends_with(host, (#[trigger] zones[j]).0),
    ensures
        zone_for(host, zones) == Some(zones[k].1),
    decreases zones.len(),
{
    if k > 0 {
        let rest = zones.drop_first();
        assert(!ends_with(host, zones[0].0));
        assert forall|j: int| 0 <= j < k - 1 implies !ends_with(host, (#[trigger] rest[j]).0) by {
            assert(rest[j] == zones[j + 1]);
        }
        assert(rest[k - 1] == zones[k]);
        lemma_first_match_wins(host, rest, k - 1);
    }
}

/// A hostname that ends with no zone's name belongs to no zone.
pub proof fn lemma_no_match(host: Seq<char>, zones: Seq<(Seq<char>, Seq<char>)>)
    requires
        forall|j: int| 0 <= j < zones.len() ==> !ends_with(host, (#[trigger] zones[j]).0),
    ensures
        zone_for(host, zones) is None,
    decreases zones.len(),
{
    if zones.len() > 0 {
        let rest = zones.drop_first();
        assert(!ends_with(host, zones[0].0));
        assert forall|j: int| 0 <= j < rest.len() implies !ends_with(
            host,
            (#[trigger] rest[j]).0,
        ) by {
            assert(rest[j] == zones[j + 1]);
        }
        lemma_no_match(host, rest);
    }
}

/// Whether the characters `s` end with the characters `suffix`.
pub fn chars_end_with(s: &Vec<char>, suffix: &Vec<char>) -> (r: bool)
    ensures
        r == ends_with(s@, suffix@),
{
    let n = s.len();
    let m = suffix.len();
    if m > n {
        return false;
    }
    let off = n - m;
    let mut i: usize = 0;
    while i < m
        invariant
            n == s.len(),
            m == suffix.len(),
            off == n - m,
            i <= m,
            forall|k: int| 0 <= k < i ==> s@[off + k] == suffix@[k],
        decreases m - i,
    {
        if s[off + i] != suffix[i] {
            assert(s@.skip(off as int)[i as int] != suffix@[i as int]);
            return false;
        }
        i += 1;
    }
    assert(s@.skip(off as int) =~= suffix@);
    true
}

/// The position in `zones` of the first zone whose name `host` ends with.
fn find_zone(host: &Vec<char>, names: &Vec<Vec<char>>, zones: &Vec<(String, String)>) -> (r: Option<
    usize,
>)
    requires
        names.len() == zones.len(),
        forall|k: int| 0 <= k < names.len() ==> #[trigger] names@[k]@ == zones@[k].0@,
    ensures
        match zone_for(host@, pairs_of(zones@)) {
            Some(id) => r is Some && r->Some_0 < zones.len() && zones@[r->Some_0 as int].1@ == id,
            None => r is None,
        },
{
    let ghost all = pairs_of(zones@);
    let mut i: usize = 0;
    assert(all.skip(0) =~= all);
    while i < zones.len()
        invariant
            i <= zones.len(),
            names.len() == zones.len(),
            all == pairs_of(zones@),
            forall|k: int| 0 <= k < names.len() ==> #[trigger] names@[k]@ == zones@[k].0@,
            zone_for(host@, all) == zone_for(host@, all.skip(i as int)),
        decreases zones.len() - i,
    {
        let ghost rest = all.skip(i as int);
        assert(rest[0] == all[i as int]);
        assert(names@[i as int]@ == zones@[i as int].0@);
        if chars_end_with(host, &names[i]) {
            return Some(i);
        }
        assert(rest.drop_first() =~= all.skip(i + 1));
        i += 1;
    }
    assert(all.skip(i as int).len() == 0);
    None
}

/// The records to write in one zone: hostnames with the address each is to
/// point to.
pub struct ZoneGroup {
    pub zone_id: String,
    pub records: Vec<(String, Ipv4Addr)>,
}

/// A `ZoneGroup` as a mathematical value.
pub struct GroupView {
    pub zone_id: Seq<char>,
    pub records: Seq<(Seq<char>, Ipv4Addr)>,
}

/// The views of a run of records, one for one.
pub open spec fn records_of(v: Seq<(String, Ipv4Addr)>) -> Seq<(Seq<char>, Ipv4Addr)> {
    Seq::new(v.len(), |i: int| (v[i].0@, v[i].1))
}

impl View for ZoneGroup {
    type V = GroupView;

    open spec fn view(&self) -> GroupView {
        GroupView { zone_id: self.zone_id@, records: records_of(self.records@) }
    }
}

/// The records to write for one request, zone by zone. The zones stand in
/// the order in which the request's hostnames first reached them.
pub struct ZoneUpdatePlan {
    pub groups: Vec<ZoneGroup>,
}

impl View for ZoneUpdatePlan {
    type V = Seq<GroupView>;

    open spec fn view(&self) -> Seq<GroupView> {
        Seq::new(self.groups@.len(), |i: int| self.groups@[i]@)
    }
}

/// Where the group of zone `id` stands in `plan`; the length of `plan`
/// where it has none.
pub open spec fn group_index(plan: Seq<GroupView>, id: Seq<char>) -> int
    decreases plan.len(),
{
    if plan.len() == 0 {
        0
    } else if plan[0].zone_id == id {
        0
    } else {
        1 + group_index(plan.drop_first(), id)
    }
}

/// `group_index` is the least position whose group is that of zone `id`.
pub proof fn lemma_group_index(plan: Seq<GroupView>, id: Seq<char>)
    ensures
        0 <= group_index(plan, id) <= plan.len(),
        forall|k: int| 0 <= k < group_index(plan, id) ==> (#[trigger] plan[k]).zone_id != id,
        group_index(plan, id) < plan.len() ==> plan[group_index(plan, id)].zone_id == id,
    decreases plan.len(),
{
    if plan.len() != 0 && plan[0].zone_id != id {
        let rest = plan.drop_first();
        lemma_group_index(rest, id);
        assert forall|k: int| 0 <= k < group_index(plan, id) implies (#[trigger] plan[k]).zone_id
            != id by {
            if k > 0 {
                assert(plan[k] == rest[k - 1]);
            }
        }
    }
}

/// `plan` with the record of `host` added: behind the records of zone
/// `id` where the plan has a group for it, else in a new last group.
pub open spec fn with_record(
    plan: Seq<GroupView>,
    id: Seq<char>,
    host: Seq<char>,
    ip: Ipv4Addr,
) -> Seq<GroupView> {
    let i = group_index(plan, id);
    if 0 <= i < plan.len() {
        plan.update(i, GroupView { zone_id: id, records: plan[i].records.push((host, ip)) })
    } else {
        plan.push(GroupView { zone_id: id, records: seq![(host, ip)] })
    }
}

/// The plan for pointing `hosts` to `ip`: each hostname, in order, goes to
/// the first zone of `zones` whose name it ends with; a hostname that ends
/// with no zone's name goes nowhere.
pub open spec fn plan_of(
    hosts: Seq<Seq<char>>,
    ip: Ipv4Addr,
    zones: Seq<(Seq<char>, Seq<char>)>,
) -> Seq<GroupView>
    decreases hosts.len(),
{
    if hosts.len() == 0 {
        Seq::empty()
    } else {
        let before = plan_of(hosts.drop_last(), ip, zones);
        match zone_for(hosts.last(), zones) {
            Some(id) => with_record(before, id, hosts.last(), ip),
            None => before,
        }
    }
}

impl ZoneUpdatePlan {
    /// Adds the record of `host` to the group of zone `id`.
    fn add_record(&mut self, id: &String, host: &String, ip: Ipv4Addr)
        ensures
            final(self)@ == with_record(old(self)@, id@, host@, ip),
    {
        let ghost plan = self@;
        let mut i: usize = 0;
        while i < self.groups.len()
            invariant
                self@ == plan,
                plan == old(self)@,
                i <= self.groups.len(),
                forall|k: int| 0 <= k < i ==> (#[trigger] plan[k]).zone_id != id@,
            decreases self.groups.len() - i,
        {
            assert(plan[i as int].zone_id == self.groups@[i as int].zone_id@);
            if same_text(self.groups[i].zone_id.as_str(), id.as_str()) {
                proof {
                    lemma_group_index(plan, id@);
                    assert(group_index(plan, id@) == i);
                }
                let mut group = self.groups.remove(i);
                let ghost before = records_of(group.records@);
                group.records.push((host.clone(), ip));
                assert(records_of(group.records@) =~= before.push((host@, ip)));
                self.groups.insert(i, group);
                assert(self@ =~= with_record(plan, id@, host@, ip));
                return ;
            }
            i += 1;
        }
        proof {
            lemma_group_index(plan, id@);
            assert(group_index(plan, id@) == plan.len());
        }
        let mut records: Vec<(String, Ipv4Addr)> = Vec::new();
        records.push((host.clone(), ip));
        assert(records_of(records@) =~= seq![(host@, ip)]);
        self.groups.push(ZoneGroup { zone_id: id.clone(), records });
        assert(self@ =~= with_record(plan, id@, host@, ip));
    }
}

/// The plan for pointing `hostnames` to `ip` in the zones `zones`.
pub fn resolve(hostnames: &Vec<String>, ip: &Ipv4Addr, zones: &Vec<(String, String)>) -> (plan:
    ZoneUpdatePlan)
    ensures
        plan@ == plan_of(texts_of(hostnames@), *ip, pairs_of(zones@)),
{
    let mut names: Vec<Vec<char>> = Vec::new();
    let mut z: usize = 0;
    while z < zones.len()
        invariant
            z <= zones.len(),
            names.len() == z,
            forall|k: int| 0 <= k < z ==> #[trigger] names@[k]@ == zones@[k].0@,
        decreases zones.len() - z,
    {
        names.push(chars_of(zones[z].0.as_str()));
        z += 1;
    }
    let mut plan = ZoneUpdatePlan { groups: Vec::new() };
    let ghost hosts = texts_of(hostnames@);
    let mut i: usize = 0;
    assert(plan@ =~= Seq::<GroupView>::empty());
    assert(hosts.take(0) =~= Seq::<Seq<char>>::empty());
    while i < hostnames.len()
        invariant
            i <= hostnames.len(),
            hosts == texts_of(hostnames@),
            names.len() == zones.len(),
            forall|k: int| 0 <= k < names.len() ==> #[trigger] names@[k]@ == zones@[k].0@,
            plan@ == plan_of(hosts.take(i as int), *ip, pairs_of(zones@)),
        decreases hostnames.len() - i,
    {
        let host = &hostnames[i];
        proof {
            assert(hosts.take(i + 1).drop_last() =~= hosts.take(i as int));
            assert(hosts.take(i + 1).last() == host@);
        }
        let host_chars = chars_of(host.as_str());
        match find_zone(&host_chars, &names, zones) {
            Some(at) => {
                plan.add_record(&zones[at].1, host, *ip);
            },
            None => {},
        }
        i += 1;
    }
    assert(hosts.take(i as int) =~= hosts);
    plan
}

/// The records of those of `hosts`, in order, that belong to zone `id`.
pub open spec fn records_for(
    hosts: Seq<Seq<char>>,
    ip: Ipv4Addr,
    zones: Seq<(Seq<char>, Seq<char>)>,
    id: Seq<char>,
) -> Seq<(Seq<char>, Ipv4Addr)>
    decreases hosts.len(),
{
    if hosts.len() == 0 {
        Seq::empty()
    } else {
        let before = records_for(hosts.drop_last(), ip, zones, id);
        if zone_for(hosts.last(), zones) == Some(id) {
            before.push((hosts.last(), ip))
        } else {
            before
        }
    }
}

/// Whether `plan` groups `hosts` by zone: no zone has two groups, no group
/// is empty, the group of a zone holds the records of exactly the
/// hostnames that belong to the zone, in their order, and every zone that
/// a hostname belongs to has its group.
pub open spec fn groups_by_zone(
    plan: Seq<GroupView>,
    hosts: Seq<Seq<char>>,
    ip: Ipv4Addr,
    zones: Seq<(Seq<char>, Seq<char>)>,
) -> bool {
    &&& forall|i: int, j: int|
        0 <= i < j < plan.len() ==> (#[trigger] plan[i]).zone_id != (#[trigger] plan[j]).zone_id
    &&& forall|i: int|
        0 <= i < plan.len() ==> (#[trigger] plan[i]).records.len() > 0 && plan[i].records
            == records_for(hosts, ip, zones, plan[i].zone_id)
    &&& forall|id: Seq<char>|
        records_for(hosts, ip, zones, id).len() > 0 ==> 0 <= #[trigger] group_index(plan, id)
            < plan.len()
}

/// A hostname that belongs to a zone has its record among those of the
/// zone.
pub proof fn lemma_records_for_holds(
    hosts: Seq<Seq<char>>,
    ip: Ipv4Addr,
    zones: Seq<(Seq<char>, Seq<char>)>,
    k: int,
)
    requires
        0 <= k < hosts.len(),
        zone_for(hosts[k], zones) is Some,
    ensures
        records_for(hosts, ip, zones, zone_for(hosts[k], zones)->Some_0).contains((hosts[k], ip)),
    decreases hosts.len(),
{
    let id = zone_for(hosts[k], zones)->Some_0;
    let before = records_for(hosts.drop_last(), ip, zones, id);
    let all = records_for(hosts, ip, zones, id);
    if k == hosts.len() - 1 {
        assert(all == before.push((hosts[k], ip)));
        assert(all[before.len() as int] == (hosts[k], ip));
    } else {
        assert(hosts.drop_last()[k] == hosts[k]);
        lemma_records_for_holds(hosts.drop_last(), ip, zones, k);
        let at = choose|at: int| 0 <= at < before.len() && before[at] == (hosts[k], ip);
        assert(all[at] == (hosts[k], ip));
    }
}

/// The plan groups the hostnames by zone.
pub proof fn lemma_plan_groups_by_zone(
    hosts: Seq<Seq<char>>,
    ip: Ipv4Addr,
    zones: Seq<(Seq<char>, Seq<char>)>,
)
    ensures
        groups_by_zone(plan_of(hosts, ip, zones), hosts, ip, zones),
    decreases hosts.len(),
{
    let plan = plan_of(hosts, ip, zones);
    if hosts.len() == 0 {
        assert forall|id: Seq<char>| records_for(hosts, ip, zones, id).len() > 0 implies 0
            <= #[trigger] group_index(plan, id) < plan.len() by {}
    } else {
        let earlier = hosts.drop_last();
        let before = plan_of(earlier, ip, zones);
        lemma_plan_groups_by_zone(earlier, ip, zones);
        match zone_for(hosts.last(), zones) {
            None => {
                assert forall|id: Seq<char>|
                    records_for(hosts, ip, zones, id).len() > 0 implies 0 <= #[trigger] group_index(
                    plan,
                    id,
                ) < plan.len() by {
                    assert(records_for(earlier, ip, zones, id).len() > 0);
                    assert(0 <= group_index(before, id) < before.len());
                }
            },
            Some(zone) => {
                let at = group_index(before, zone);
                lemma_group_index(before, zone);
                if at < before.len() {
                    assert forall|i: int| 0 <= i < plan.len() implies (
                    #[trigger] plan[i]).records.len() > 0 && plan[i].records == records_for(
                        hosts,
                        ip,
                        zones,
                        plan[i].zone_id,
                    ) by {
                        if i != at {
                            assert(plan[i] == before[i]);
                            if i < at {
                                assert(before[i].zone_id != before[at].zone_id);
                            } else {
                                assert(before[at].zone_id != before[i].zone_id);
                            }
                        }
                    }
                    assert forall|i: int, j: int| 0 <= i < j < plan.len() implies (
                    #[trigger] plan[i]).zone_id != (#[trigger] plan[j]).zone_id by {
                        assert(plan[i].zone_id == before[i].zone_id);
                        assert(plan[j].zone_id == before[j].zone_id);
                    }
                    assert forall|id: Seq<char>|
                        records_for(hosts, ip, zones, id).len() > 0 implies 0
                        <= #[trigger] group_index(plan, id) < plan.len() by {
                        lemma_group_index(plan, id);
                        if id == zone {
                            assert(plan[at].zone_id == id);
                        } else {
                            assert(records_for(earlier, ip, zones, id).len() > 0);
                            let g = group_index(before, id);
                            assert(0 <= g < before.len());
                            lemma_group_index(before, id);
                            assert(plan[g].zone_id == id);
                        }
                    }
                } else {
                    assert(records_for(earlier, ip, zones, zone).len() == 0) by {
                        if records_for(earlier, ip, zones, zone).len() > 0 {
                            assert(0 <= group_index(before, zone) < before.len());
                        }
                    }
                    assert forall|i: int| 0 <= i < plan.len() implies (
                    #[trigger] plan[i]).records.len() > 0 && plan[i].records == records_for(
                        hosts,
                        ip,
                        zones,
                        plan[i].zone_id,
                    ) by {
                        if i < before.len() {
                            assert(plan[i] == before[i]);
                            assert(before[i].zone_id != zone);
                        } else {
                            assert(plan[i].records =~= records_for(hosts, ip, zones, zone));
                        }
                    }
                    assert forall|i: int, j: int| 0 <= i < j < plan.len() implies (
                    #[trigger] plan[i]).zone_id != (#[trigger] plan[j]).zone_id by {
                        assert(plan[i] == before[i]);
                        if j < before.len() {
                            assert(plan[j] == before[j]);
                        } else {
                            assert(before[i].zone_id != zone);
                        }
                    }
                    assert forall|id: Seq<char>|
                        records_for(hosts, ip, zones, id).len() > 0 implies 0
                        <= #[trigger] group_index(plan, id) < plan.len() by {
                        lemma_group_index(plan, id);
                        if id == zone {
                            assert(plan[before.len() as int].zone_id == id);
                        } else {
                            assert(records_for(earlier, ip, zones, id).len() > 0);
                            let g = group_index(before, id);
                            assert(0 <= g < before.len());
                            lemma_group_index(before, id);
                            assert(plan[g] == before[g]);
                        }
                    }
                }
            },
        }
    }
}

} // verus!
