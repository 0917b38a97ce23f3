//! The devices on the network that something can be played on: how answers are
//! gathered, in which order devices are listed, and which one is picked.

use vstd::prelude::*;

use crate::cast::CastDevice;
use crate::num::push_dec;
use crate::sort::{stable_sort, str_before, Rank, Ranked};
use crate::text::{eq_ignore_case, is_blank, str_eq};
use crate::upnp::UpnpDevice;

verus! {

/// A device of either protocol.
#[derive(Debug)]
pub enum RemoteDevice {
    Cast(CastDevice),
    Upnp(UpnpDevice),
}

impl Clone for RemoteDevice {
    fn clone(&self) -> (r: Self)
        ensures
            r == *self,
    {
        match self {
            RemoteDevice::Cast(d) => RemoteDevice::Cast(d.clone()),
            RemoteDevice::Upnp(d) => RemoteDevice::Upnp(d.clone()),
        }
    }
}

impl RemoteDevice {
    /// The name under which a device is shown.
    pub open spec fn shown_as(self) -> Seq<char> {
        match self {
            RemoteDevice::Cast(d) => d.shown_as(),
            RemoteDevice::Upnp(d) => d.shown_as(),
        }
    }

    /// The line beside a device's name.
    pub open spec fn line(self) -> Seq<char> {
        match self {
            RemoteDevice::Cast(d) => d.model@ + "   "@ + d.address@ + ":"@ + crate::num::dec(
                d.port as nat,
            ),
            RemoteDevice::Upnp(d) => (if d.manufacturer@.len() == 0 {
                Seq::empty()
            } else {
                d.manufacturer@ + "   "@
            }) + (if d.model@.len() == 0 {
                "-"@
            } else {
                d.model@
            }) + "   "@ + d.address@,
        }
    }

    pub fn display_name(&self) -> (r: String)
        ensures
            r@ == self.shown_as(),
    {
        match self {
            RemoteDevice::Cast(d) => d.display_name(),
            RemoteDevice::Upnp(d) => d.display_name(),
        }
    }

    pub fn kind_label(&self) -> (r: &'static str)
        ensures
            r@ == (match *self {
                RemoteDevice::Cast(_) => "chromecast"@,
                RemoteDevice::Upnp(_) => "upnp"@,
            }),
    {
        match self {
            RemoteDevice::Cast(_) => "chromecast",
            RemoteDevice::Upnp(_) => "upnp",
        }
    }

    pub fn subtitle(&self) -> (r: String)
        ensures
            r@ == self.line(),
    {
        match self {
            RemoteDevice::Cast(d) => {
                let mut r: String = d.model.clone();
                r.push_str("   ");
                r.push_str(d.address.as_str());
                r.push_str(":");
                push_dec(&mut r, d.port as u64);
                r
            },
            RemoteDevice::Upnp(d) => {
                let mut r: String = String::new();
                if !is_blank(d.manufacturer.as_str()) {
                    r.push_str(d.manufacturer.as_str());
                    r.push_str("   ");
                    proof {
                        assert(r@ =~= d.manufacturer@ + "   "@);
                    }
                } else {
                    proof {
                        assert(r@ =~= Seq::empty());
                    }
                }
                if is_blank(d.model.as_str()) {
                    r.push_str("-");
                } else {
                    r.push_str(d.model.as_str());
                }
                r.push_str("   ");
                r.push_str(d.address.as_str());
                r
            },
        }
    }
}

/// Sorting by name alone.
pub open spec fn by_name(name: Seq<char>) -> Rank {
    Rank { first: 0, second: 0, name }
}

impl Ranked for CastDevice {
    open spec fn rank(&self) -> Rank {
        by_name(self.shown_as())
    }

    fn before(&self, other: &Self) -> (r: bool) {
        str_before(self.display_name().as_str(), other.display_name().as_str())
    }
}

impl Ranked for UpnpDevice {
    open spec fn rank(&self) -> Rank {
        by_name(self.shown_as())
    }

    fn before(&self, other: &Self) -> (r: bool) {
        str_before(self.display_name().as_str(), other.display_name().as_str())
    }
}

impl Ranked for RemoteDevice {
    open spec fn rank(&self) -> Rank {
        by_name(self.shown_as())
    }

    fn before(&self, other: &Self) -> (r: bool) {
        str_before(self.display_name().as_str(), other.display_name().as_str())
    }
}

/// No two devices share their id.
pub open spec fn casts_distinct(v: Seq<CastDevice>) -> bool {
    forall|i: int, j: int|
        0 <= i < j < v.len() ==> (#[trigger] v[i]).uuid@ != (#[trigger] v[j]).uuid@
}

/// A device takes the place of the one with its id, or comes last.
pub open spec fn with_cast(v: Seq<CastDevice>, d: CastDevice) -> Seq<CastDevice>
    decreases v.len(),
{
    if v.len() == 0 {
        seq![d]
    } else if v[0].uuid@ == d.uuid@ {
        seq![d] + v.skip(1)
    } else {
        seq![v[0]] + with_cast(v.skip(1), d)
    }
}

/// Notes a Chromecast that answered. The latest answer of a device counts.
pub fn note_cast(found: &mut Vec<CastDevice>, d: CastDevice)
    ensures
        final(found)@ == with_cast(old(found)@, d),
{
    let ghost all = found@;
    let mut i: usize = 0;
    proof {
        assert(all.skip(0) =~= all);
        assert(all.take(0) + with_cast(all, d) =~= with_cast(all, d));
    }
    while i < found.len()
        invariant
            found@ == all,
            all == old(found)@,
            i <= all.len(),
            with_cast(all, d) == all.take(i as int) + with_cast(all.skip(i as int), d),
        decreases all.len() - i,
    {
        proof {
            assert(all.skip(i as int)[0] == all[i as int]);
            assert(all.skip(i as int).skip(1) =~= all.skip(i as int + 1));
        }
        if str_eq(found[i].uuid.as_str(), d.uuid.as_str()) {
            found.set(i, d);
            proof {
                assert(found@ =~= all.take(i as int) + (seq![d] + all.skip(i as int + 1)));
            }
            return ;
        }
        proof {
            assert(all.take(i as int + 1) =~= all.take(i as int).push(all[i as int]));
            assert(all.take(i as int) + (seq![all[i as int]] + with_cast(
                all.skip(i as int + 1),
                d,
            )) =~= all.take(i as int + 1) + with_cast(all.skip(i as int + 1), d));
        }
        i += 1;
    }
    found.push(d);
    proof {
        assert(all.skip(i as int).len() == 0);
        assert(found@ =~= all.take(i as int) + seq![d]);
    }
}

/// However devices answer, none is listed twice.
pub proof fn lemma_casts_stay_distinct(v: Seq<CastDevice>, d: CastDevice)
    requires
        casts_distinct(v),
    ensures
        casts_distinct(with_cast(v, d)),
        exists|i: int| 0 <= i < with_cast(v, d).len() && #[trigger] with_cast(v, d)[i] == d,
    decreases v.len(),
{
    let w = with_cast(v, d);
    if v.len() == 0 {
        assert(w[0] == d);
    } else if v[0].uuid@ == d.uuid@ {
        assert(w[0] == d);
        assert forall|i: int, j: int| 0 <= i < j < w.len() implies (#[trigger] w[i]).uuid@ != (
        #[trigger] w[j]).uuid@ by {
            assert(w[j] == v[j]);
            assert(i > 0 ==> w[i] == v[i]);
            assert(v[0].uuid@ != v[j].uuid@);
        }
    } else {
        let rest = v.skip(1);
        assert forall|i: int, j: int| 0 <= i < j < rest.len() implies (
        #[trigger] rest[i]).uuid@ != (#[trigger] rest[j]).uuid@ by {
            assert(rest[i] == v[i + 1]);
            assert(rest[j] == v[j + 1]);
        }
        lemma_casts_stay_distinct(rest, d);
        let x = with_cast(rest, d);
        lemma_cast_ids(rest, d);
        assert forall|i: int, j: int| 0 <= i < j < w.len() implies (#[trigger] w[i]).uuid@ != (
        #[trigger] w[j]).uuid@ by {
            assert(w[j] == x[j - 1]);
            if i > 0 {
                assert(w[i] == x[i - 1]);
            } else {
                let k = choose|k: int|
                    (0 <= k < rest.len() && (#[trigger] rest[k]).uuid@ == x[j - 1].uuid@);
                if x[j - 1].uuid@ != d.uuid@ {
                    assert(rest[k] == v[k + 1]);
                    assert(v[0].uuid@ != v[k + 1].uuid@);
                }
            }
        }
        let k = choose|k: int| 0 <= k < x.len() && #[trigger] x[k] == d;
        assert(w[k + 1] == d);
    }
}

proof fn lemma_cast_ids(v: Seq<CastDevice>, d: CastDevice)
    ensures
        forall|j: int|
            0 <= j < with_cast(v, d).len() ==> (#[trigger] with_cast(v, d)[j]).uuid@ == d.uuid@
                || exists|k: int|
                0 <= k < v.len() && (#[trigger] v[k]).uuid@ == with_cast(v, d)[j].uuid@,
    decreases v.len(),
{
    if v.len() > 0 {
        let rest = v.skip(1);
        lemma_cast_ids(rest, d);
        assert forall|j: int| 0 <= j < with_cast(v, d).len() implies (
        #[trigger] with_cast(v, d)[j]).uuid@ == d.uuid@ || exists|k: int|
            0 <= k < v.len() && (#[trigger] v[k]).uuid@ == with_cast(v, d)[j].uuid@ by {
            let w = with_cast(v, d);
            if v[0].uuid@ == d.uuid@ {
                if j > 0 {
                    assert(w[j] == v[j]);
                }
            } else if j == 0 {
                assert(w[0] == v[0]);
            } else {
                assert(w[j] == with_cast(rest, d)[j - 1]);
                if w[j].uuid@ != d.uuid@ {
                    let k = choose|k: int|
                        0 <= k < rest.len() && (#[trigger] rest[k]).uuid@ == w[j].uuid@;
                    assert(rest[k] == v[k + 1]);
                }
            }
        }
    }
}

/// An address at which a renderer describes itself, and where that was heard.
#[derive(Debug)]
pub struct Location {
    pub url: String,
    pub address: String,
}

/// A known address.
pub open spec fn knows_location(v: Seq<Location>, url: Seq<char>) -> bool {
    exists|i: int| 0 <= i < v.len() && (#[trigger] v[i]).url@ == url
}

/// Notes where a renderer describes itself; of equal addresses the first one
/// counts.
pub fn note_location(found: &mut Vec<Location>, l: Location)
    ensures
        final(found)@ == (if knows_location(old(found)@, l.url@) {
            old(found)@
        } else {
            old(found)@.push(l)
        }),
{
    let mut i: usize = 0;
    while i < found.len()
        invariant
            found@ == old(found)@,
            i <= found@.len(),
            forall|j: int| 0 <= j < i ==> (#[trigger] found@[j]).url@ != l.url@,
        decreases found@.len() - i,
    {
        if str_eq(found[i].url.as_str(), l.url.as_str()) {
            proof {
                assert(found@[i as int].url@ == l.url@);
            }
            return ;
        }
        i += 1;
    }
    found.push(l);
}

/// A known renderer.
pub open spec fn knows_upnp(v: Seq<UpnpDevice>, udn: Seq<char>) -> bool {
    exists|i: int| 0 <= i < v.len() && (#[trigger] v[i]).udn@ == udn
}

/// Notes a renderer; of those with the same unique name the first one counts.
pub fn note_upnp(found: &mut Vec<UpnpDevice>, d: UpnpDevice)
    ensures
        final(found)@ == (if knows_upnp(old(found)@, d.udn@) {
            old(found)@
        } else {
            old(found)@.push(d)
        }),
{
    let mut i: usize = 0;
    while i < found.len()
        invariant
            found@ == old(found)@,
            i <= found@.len(),
            forall|j: int| 0 <= j < i ==> (#[trigger] found@[j]).udn@ != d.udn@,
        decreases found@.len() - i,
    {
        if str_eq(found[i].udn.as_str(), d.udn.as_str()) {
            proof {
                assert(found@[i as int].udn@ == d.udn@);
            }
            return ;
        }
        i += 1;
    }
    found.push(d);
}

/// Lists Chromecasts by name.
pub fn sort_casts(found: &mut Vec<CastDevice>)
    ensures
        crate::sort::sorts(old(found)@, final(found)@),
{
    stable_sort(found);
}

/// Lists renderers by name.
pub fn sort_upnps(found: &mut Vec<UpnpDevice>)
    ensures
        crate::sort::sorts(old(found)@, final(found)@),
{
    stable_sort(found);
}

/// The devices of both protocols one after the other.
pub open spec fn both(casts: Seq<CastDevice>, upnps: Seq<UpnpDevice>) -> Seq<RemoteDevice> {
    casts.map_values(|d: CastDevice| RemoteDevice::Cast(d)) + upnps.map_values(
        |d: UpnpDevice| RemoteDevice::Upnp(d),
    )
}

/// One list of the devices of both protocols, by name.
pub fn merge(casts: Vec<CastDevice>, upnps: Vec<UpnpDevice>) -> (r: Vec<RemoteDevice>)
    ensures
        crate::sort::sorts(both(casts@, upnps@), r@),
{
    let mut all: Vec<RemoteDevice> = Vec::new();
    let mut i: usize = 0;
    while i < casts.len()
        invariant
            i <= casts@.len(),
            all@.len() == i,
            forall|j: int| 0 <= j < i ==> #[trigger] all@[j] == RemoteDevice::Cast(casts@[j]),
        decreases casts@.len() - i,
    {
        all.push(RemoteDevice::Cast(casts[i].clone()));
        i += 1;
    }
    let mut k: usize = 0;
    while k < upnps.len()
        invariant
            k <= upnps@.len(),
            all@.len() == casts@.len() + k,
            forall|j: int|
                0 <= j < casts@.len() ==> #[trigger] all@[j] == RemoteDevice::Cast(casts@[j]),
            forall|j: int|
                casts@.len() <= j < all@.len() ==> #[trigger] all@[j] == RemoteDevice::Upnp(
                    upnps@[j - casts@.len()],
                ),
        decreases upnps@.len() - k,
    {
        all.push(RemoteDevice::Upnp(upnps[k].clone()));
        k += 1;
    }
    proof {
        assert(all@ =~= both(casts@, upnps@));
    }
    stable_sort(&mut all);
    all
}

/// The place of the first name that is the wanted one, upper and lower case
/// alike.
pub open spec fn named_at(names: Seq<Seq<char>>, wanted: Seq<char>) -> Option<int>
    decreases names.len(),
{
    if names.len() == 0 {
        None
    } else if crate::text::lower(names[0]) == crate::text::lower(wanted) {
        Some(0)
    } else {
        match named_at(names.skip(1), wanted) {
            Some(i) => Some(i + 1),
            None => None,
        }
    }
}

/// The place of the device to take: the wanted one where it was found, else
/// the first.
pub open spec fn picked(names: Seq<Seq<char>>, wanted: Option<Seq<char>>) -> Option<int> {
    if names.len() == 0 {
        None
    } else {
        match wanted {
            Some(w) => match named_at(names, w) {
                Some(i) => Some(i),
                None => Some(0),
            },
            None => Some(0),
        }
    }
}

/// Where the device to take stands in a list of names; nowhere in an empty one.
pub fn pick(names: &Vec<String>, wanted: Option<&str>) -> (r: Option<usize>)
    ensures
        match r {
            Some(i) => i < names@.len() && picked(
                crate::text::string_views(names@),
                crate::jellyfin::slice_view(wanted),
            ) == Some(i as int),
            None => names@.len() == 0,
        },
{
    if names.len() == 0 {
        return None;
    }
    let ghost all = crate::text::string_views(names@);
    if let Some(w) = wanted {
        let mut i: usize = 0;
        proof {
            assert(all.skip(0) =~= all);
        }
        while i < names.len()
            invariant
                i <= names@.len(),
                names@.len() > 0,
                wanted == Some(w),
                all == crate::text::string_views(names@),
                named_at(all, w@) == (match named_at(all.skip(i as int), w@) {
                    Some(k) => Some(k + i),
                    None => None,
                }),
            decreases names@.len() - i,
        {
            proof {
                assert(all.skip(i as int)[0] == names@[i as int]@);
                assert(all.skip(i as int).skip(1) =~= all.skip(i as int + 1));
            }
            if eq_ignore_case(names[i].as_str(), w) {
                return Some(i);
            }
            i += 1;
        }
        proof {
            assert(all.skip(i as int).len() == 0);
        }
    }
    Some(0)
}

/// What the devices of a list are shown as.
pub open spec fn cast_names(v: Seq<CastDevice>) -> Seq<Seq<char>> {
    v.map_values(|d: CastDevice| d.shown_as())
}

/// What the renderers of a list are shown as.
pub open spec fn upnp_names(v: Seq<UpnpDevice>) -> Seq<Seq<char>> {
    v.map_values(|d: UpnpDevice| d.shown_as())
}

/// The Chromecast to take: the preferred one where it was found, else the
/// first.
pub fn pick_chromecast(devices: &Vec<CastDevice>, preferred: Option<&str>) -> (r: Option<
    CastDevice,
>)
    ensures
        match r {
            Some(d) => ({
                let at = picked(cast_names(devices@), crate::jellyfin::slice_view(preferred));
                at is Some && d == devices@[at->0]
            }),
            None => devices@.len() == 0,
        },
{
    let mut names: Vec<String> = Vec::new();
    let mut i: usize = 0;
    while i < devices.len()
        invariant
            i <= devices@.len(),
            names@.len() == i,
            forall|j: int| 0 <= j < i ==> (#[trigger] names@[j])@ == devices@[j].shown_as(),
        decreases devices@.len() - i,
    {
        names.push(devices[i].display_name());
        i += 1;
    }
    proof {
        assert(crate::text::string_views(names@) =~= cast_names(devices@));
    }
    match pick(&names, preferred) {
        Some(at) => Some(devices[at].clone()),
        None => None,
    }
}

/// The renderer to take: the preferred one where it was found, else the first.
pub fn pick_upnp(devices: &Vec<UpnpDevice>, preferred: Option<&str>) -> (r: Option<UpnpDevice>)
    ensures
        match r {
            Some(d) => ({
                let at = picked(upnp_names(devices@), crate::jellyfin::slice_view(preferred));
                at is Some && d == devices@[at->0]
            }),
            None => devices@.len() == 0,
        },
{
    let mut names: Vec<String> = Vec::new();
    let mut i: usize = 0;
    while i < devices.len()
        invariant
            i <= devices@.len(),
            names@.len() == i,
            forall|j: int| 0 <= j < i ==> (#[trigger] names@[j])@ == devices@[j].shown_as(),
        decreases devices@.len() - i,
    {
        names.push(devices[i].display_name());
        i += 1;
    }
    proof {
        assert(crate::text::string_views(names@) =~= upnp_names(devices@));
    }
    match pick(&names, preferred) {
        Some(at) => Some(devices[at].clone()),
        None => None,
    }
}

/// The device of a name that was asked for is taken, upper and lower case alike:
/// the first one of that name. Where there is none of that name, or none was
/// asked for, the first of all is taken.
pub proof fn lemma_wanted_taken(names: Seq<Seq<char>>, wanted: Seq<char>, i: int)
    requires
        0 <= i < names.len(),
        crate::text::lower(names[i]) == crate::text::lower(wanted),
        forall|j: int|
            0 <= j < i ==> crate::text::lower(#[trigger] names[j]) != crate::text::lower(wanted),
    ensures
        picked(names, Some(wanted)) == Some(i),
        picked(names, None) == Some(0int),
    decreases i,
{
    if i > 0 {
        let rest = names.skip(1);
        assert(rest[i - 1] == names[i]);
        assert forall|j: int| 0 <= j < i - 1 implies crate::text::lower(#[trigger] rest[j])
            != crate::text::lower(wanted) by {
            assert(rest[j] == names[j + 1]);
        }
        lemma_wanted_taken(rest, wanted, i - 1);
        assert(named_at(rest, wanted) is Some) by {
            lemma_named_at(rest, wanted, i - 1);
        }
    }
}

proof fn lemma_named_at(names: Seq<Seq<char>>, wanted: Seq<char>, i: int)
    requires
        0 <= i < names.len(),
        crate::text::lower(names[i]) == crate::text::lower(wanted),
    ensures
        named_at(names, wanted) is Some,
    decreases i,
{
    if i > 0 {
        assert(names.skip(1)[i - 1] == names[i]);
        lemma_named_at(names.skip(1), wanted, i - 1);
    }
}

/// Where no device is of the name that was asked for, the first one is taken;
/// of no devices none is.
pub proof fn lemma_first_taken(names: Seq<Seq<char>>, wanted: Seq<char>)
    requires
        forall|j: int|
            0 <= j < names.len() ==> crate::text::lower(#[trigger] names[j])
                != crate::text::lower(wanted),
    ensures
        named_at(names, wanted) is None,
        names.len() > 0 ==> picked(names, Some(wanted)) == Some(0int),
        names.len() == 0 ==> picked(names, Some(wanted)) is None,
    decreases names.len(),
{
    if names.len() > 0 {
        let rest = names.skip(1);
        assert forall|j: int| 0 <= j < rest.len() implies crate::text::lower(#[trigger] rest[j])
            != crate::text::lower(wanted) by {
            assert(rest[j] == names[j + 1]);
        }
        lemma_first_taken(rest, wanted);
        assert(crate::text::lower(names[0]) != crate::text::lower(wanted));
    }
}

/// A device that answers again takes its own place, and one that is new comes
/// last; the others stay where they are.
pub proof fn lemma_cast_noted(v: Seq<CastDevice>, d: CastDevice, i: int)
    requires
        0 <= i < v.len(),
    ensures
        v[i].uuid@ != d.uuid@ ==> with_cast(v, d)[i] == v[i],
        with_cast(v, d).len() == v.len() || with_cast(v, d).len() == v.len() + 1,
        casts_distinct(v) && v[i].uuid@ == d.uuid@ ==> with_cast(v, d)[i] == d && with_cast(
            v,
            d,
        ).len() == v.len(),
        (forall|j: int| 0 <= j < v.len() ==> (#[trigger] v[j]).uuid@ != d.uuid@) ==> with_cast(v, d)
            == v.push(d),
    decreases v.len(),
{
    let rest = v.skip(1);
    if v.len() == 1 {
        assert(rest =~= Seq::<CastDevice>::empty());
        assert(with_cast(rest, d) =~= seq![d]);
        if v[0].uuid@ != d.uuid@ {
            assert(with_cast(v, d) =~= v.push(d));
        }
    } else if v[0].uuid@ == d.uuid@ {
        assert(with_cast(v, d) =~= seq![d] + rest);
        if i > 0 {
            assert(with_cast(v, d)[i] == v[i]);
        }
    } else {
        let k = if i > 0 {
            i - 1
        } else {
            0
        };
        if casts_distinct(v) {
            assert forall|a: int, b: int| 0 <= a < b < rest.len() implies (
            #[trigger] rest[a]).uuid@ != (#[trigger] rest[b]).uuid@ by {
                assert(rest[a] == v[a + 1]);
                assert(rest[b] == v[b + 1]);
            }
        }
        lemma_cast_noted(rest, d, k);
        let w = with_cast(v, d);
        assert(w =~= seq![v[0]] + with_cast(rest, d));
        if i > 0 {
            assert(rest[k] == v[i]);
            assert(w[i] == with_cast(rest, d)[k]);
        }
        if forall|j: int| 0 <= j < v.len() ==> (#[trigger] v[j]).uuid@ != d.uuid@ {
            assert forall|j: int| 0 <= j < rest.len() implies (#[trigger] rest[j]).uuid@
                != d.uuid@ by {
                assert(rest[j] == v[j + 1]);
            }
            assert(w =~= v.push(d));
        }
    }
}

/// Devices are listed by the names that they are shown under.
pub proof fn lemma_devices_by_name(d: RemoteDevice)
    ensures
        d.rank().name == d.shown_as(),
        d.rank().first == 0,
        d.rank().second == 0,
        d matches RemoteDevice::Cast(c) ==> d.shown_as() == c.shown_as() && c.rank() == d.rank(),
        d matches RemoteDevice::Upnp(u) ==> d.shown_as() == u.shown_as() && u.rank() == d.rank(),
{
}

/// In the list of both protocols every device stands once: the Chromecasts, then
/// the renderers.
pub proof fn lemma_both(casts: Seq<CastDevice>, upnps: Seq<UpnpDevice>, i: int)
    ensures
        both(casts, upnps).len() == casts.len() + upnps.len(),
        0 <= i < casts.len() ==> both(casts, upnps)[i] == RemoteDevice::Cast(casts[i]),
        0 <= i < upnps.len() ==> both(casts, upnps)[casts.len() + i] == RemoteDevice::Upnp(
            upnps[i],
        ),
        cast_names(casts).len() == casts.len(),
        upnp_names(upnps).len() == upnps.len(),
        0 <= i < casts.len() ==> cast_names(casts)[i] == casts[i].shown_as(),
        0 <= i < upnps.len() ==> upnp_names(upnps)[i] == upnps[i].shown_as(),
{
}

/// Beside a Chromecast stand its model, its address and its port; beside a
/// renderer its maker, where it is told, its model and its address.
pub proof fn lemma_device_lines(c: CastDevice, u: UpnpDevice)
    ensures
        RemoteDevice::Cast(c).line() == c.model@ + "   "@ + c.address@ + ":"@ + crate::num::dec(
            c.port as nat,
        ),
        u.manufacturer@.len() > 0 && u.model@.len() > 0 ==> RemoteDevice::Upnp(u).line()
            == u.manufacturer@ + "   "@ + u.model@ + "   "@ + u.address@,
        u.manufacturer@.len() == 0 && u.model@.len() > 0 ==> RemoteDevice::Upnp(u).line()
            == u.model@ + "   "@ + u.address@,
{
    if u.manufacturer@.len() == 0 && u.model@.len() > 0 {
        assert(RemoteDevice::Upnp(u).line() =~= u.model@ + "   "@ + u.address@);
    }
}

} // verus!
