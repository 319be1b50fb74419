//! The table of known devices, and the order in which it is shown.

use vstd::prelude::*;
use vstd::utf8::encode_utf8;

use crate::error::ErrorView;
use crate::error::WorkflowError;
use crate::text::lemma_encoding_injective;
use crate::text::lemma_lex_le_antisymmetric;
use crate::text::lemma_lex_le_total;
use crate::text::lemma_lex_le_transitive;
use crate::text::str_eq;
use crate::text::str_le;
use crate::text::text_le;

verus! {

/// The raw pixel layout in which a family of devices stores its logos,
/// named by the tag that the catalog document and the codec share. The
/// session hands it to the codec and reads nothing from it.
#[derive(Debug, PartialEq, Eq)]
pub struct PixelFamily {
    pub tag: String,
}

impl View for PixelFamily {
    type V = Seq<char>;

    open spec fn view(&self) -> Seq<char> {
        self.tag@
    }
}

impl Clone for PixelFamily {
    fn clone(&self) -> (copy: Self)
        ensures
            copy@ == self@,
    {
        PixelFamily { tag: self.tag.clone() }
    }
}

/// One known device. The codename is its key in the catalog.
#[derive(Debug, PartialEq, Eq)]
pub struct Device {
    pub codename: String,
    pub name: String,
    pub family: PixelFamily,
    pub width: u32,
    pub height: u32,
}

/// A [`Device`] as plain values.
pub struct DeviceView {
    pub codename: Seq<char>,
    pub name: Seq<char>,
    pub family: Seq<char>,
    pub width: u32,
    pub height: u32,
}

impl View for Device {
    type V = DeviceView;

    open spec fn view(&self) -> DeviceView {
        DeviceView {
            codename: self.codename@,
            name: self.name@,
            family: self.family@,
            width: self.width,
            height: self.height,
        }
    }
}

impl Clone for Device {
    fn clone(&self) -> (copy: Self)
        ensures
            copy@ == self@,
    {
        Device {
            codename: self.codename.clone(),
            name: self.name.clone(),
            family: self.family.clone(),
            width: self.width,
            height: self.height,
        }
    }
}

/// The devices of a vector, each as plain values.
pub open spec fn device_views(devices: Seq<Device>) -> Seq<DeviceView> {
    devices.map_values(|d: Device| d@)
}

/// No two devices share a codename.
pub open spec fn distinct_codenames(devices: Seq<DeviceView>) -> bool {
    forall|i: int, j: int|
        0 <= i < j < devices.len() ==> (#[trigger] devices[i]).codename != (
        #[trigger] devices[j]).codename
}

/// The device with the given codename, if there is one.
pub open spec fn find_device(devices: Seq<DeviceView>, codename: Seq<char>) -> Option<DeviceView>
    decreases devices.len(),
{
    if devices.len() == 0 {
        None
    } else if devices[0].codename == codename {
        Some(devices[0])
    } else {
        find_device(devices.drop_first(), codename)
    }
}

/// `a` is shown no later than `b`: by display name, and by codename where
/// the names are the same.
pub open spec fn listed_before(a: DeviceView, b: DeviceView) -> bool {
    if a.name == b.name {
        text_le(a.codename, b.codename)
    } else {
        text_le(a.name, b.name)
    }
}

/// Every device is shown no later than those that follow it.
pub open spec fn in_listing_order(devices: Seq<DeviceView>) -> bool {
    forall|i: int, j: int|
        0 <= i <= j < devices.len() ==> listed_before(#[trigger] devices[i], #[trigger] devices[j])
}

/// Of two devices, one is shown no later than the other.
pub proof fn lemma_listed_before_total(a: DeviceView, b: DeviceView)
    ensures
        listed_before(a, b) || listed_before(b, a),
{
    lemma_lex_le_total(encode_utf8(a.codename), encode_utf8(b.codename));
    lemma_lex_le_total(encode_utf8(a.name), encode_utf8(b.name));
}

/// The listing order is transitive.
pub proof fn lemma_listed_before_transitive(a: DeviceView, b: DeviceView, c: DeviceView)
    requires
        listed_before(a, b),
        listed_before(b, c),
    ensures
        listed_before(a, c),
{
    if a.name == b.name && b.name == c.name {
        lemma_lex_le_transitive(
            encode_utf8(a.codename),
            encode_utf8(b.codename),
            encode_utf8(c.codename),
        );
    } else if a.name != b.name && b.name != c.name {
        lemma_lex_le_transitive(encode_utf8(a.name), encode_utf8(b.name), encode_utf8(c.name));
        if a.name == c.name {
            lemma_lex_le_antisymmetric(encode_utf8(a.name), encode_utf8(b.name));
            lemma_encoding_injective(a.name, b.name);
        }
    }
}

/// Two devices that are each shown no later than the other have the same
/// display name and the same codename.
pub proof fn lemma_listed_before_antisymmetric(a: DeviceView, b: DeviceView)
    requires
        listed_before(a, b),
        listed_before(b, a),
    ensures
        a.name == b.name,
        a.codename == b.codename,
{
    if a.name == b.name {
        lemma_lex_le_antisymmetric(encode_utf8(a.codename), encode_utf8(b.codename));
        lemma_encoding_injective(a.codename, b.codename);
    } else {
        lemma_lex_le_antisymmetric(encode_utf8(a.name), encode_utf8(b.name));
        lemma_encoding_injective(a.name, b.name);
    }
}

/// Whether `a` is shown no later than `b`.
pub fn shown_before(a: &Device, b: &Device) -> (before: bool)
    ensures
        before == listed_before(a@, b@),
{
    if str_eq(a.name.as_str(), b.name.as_str()) {
        str_le(a.codename.as_str(), b.codename.as_str())
    } else {
        str_le(a.name.as_str(), b.name.as_str())
    }
}

/// What [`find_device`] finds has the codename asked for and is a device of
/// the sequence; it finds nothing only where no device has that codename.
pub proof fn lemma_find_device(devices: Seq<DeviceView>, codename: Seq<char>)
    ensures
        match find_device(devices, codename) {
            Some(d) => d.codename == codename && devices.contains(d),
            None => forall|i: int|
                0 <= i < devices.len() ==> (#[trigger] devices[i]).codename != codename,
        },
    decreases devices.len(),
{
    if devices.len() > 0 {
        if devices[0].codename != codename {
            let rest = devices.drop_first();
            lemma_find_device(rest, codename);
            match find_device(rest, codename) {
                Some(d) => {
                    let k = choose|k: int| 0 <= k < rest.len() && rest[k] == d;
                    assert(devices[k + 1] == d);
                },
                None => {
                    assert forall|i: int| 0 <= i < devices.len() implies (
                    #[trigger] devices[i]).codename != codename by {
                        if i > 0 {
                            assert(rest[i - 1].codename != codename);
                        }
                    }
                },
            }
        }
    }
}

/// The devices that the program knows, each under its own codename.
pub struct Catalog {
    devices: Vec<Device>,
}

impl View for Catalog {
    type V = Seq<DeviceView>;

    closed spec fn view(&self) -> Seq<DeviceView> {
        device_views(self.devices@)
    }
}

impl Catalog {
    #[verifier::type_invariant]
    spec fn keyed(self) -> bool {
        distinct_codenames(device_views(self.devices@))
    }

    /// A catalog of the given devices, or nothing where two of them share a
    /// codename.
    pub fn new(devices: Vec<Device>) -> (made: Option<Catalog>)
        ensures
            made is Some <==> distinct_codenames(device_views(devices@)),
            made matches Some(catalog) ==> catalog@ == device_views(devices@),
    {
        let mut i: usize = 0;
        while i < devices.len()
            invariant
                i <= devices.len(),
                forall|a: int, b: int|
                    0 <= a < b < i ==> (#[trigger] devices@[a]).codename@ != (
                    #[trigger] devices@[b]).codename@,
            decreases devices.len() - i,
        {
            let mut j: usize = 0;
            while j < i
                invariant
                    j <= i,
                    i < devices.len(),
                    forall|a: int|
                        0 <= a < j ==> (#[trigger] devices@[a]).codename@ != devices@[i as int].codename@,
                decreases i - j,
            {
                if str_eq(devices[j].codename.as_str(), devices[i].codename.as_str()) {
                    assert(device_views(devices@)[j as int].codename == device_views(
                        devices@,
                    )[i as int].codename);
                    return None;
                }
                j += 1;
            }
            i += 1;
        }
        assert forall|a: int, b: int| 0 <= a < b < devices.len() implies (#[trigger] device_views(
            devices@,
        )[a]).codename != (#[trigger] device_views(devices@)[b]).codename by {
            assert(devices@[a].codename@ != devices@[b].codename@);
        }
        Some(Catalog { devices })
    }

    /// How many devices the catalog holds.
    pub fn len(&self) -> (n: usize)
        ensures
            n == self@.len(),
    {
        self.devices.len()
    }

    /// The device with the given codename.
    pub fn lookup(&self, codename: &str) -> (found: Result<&Device, WorkflowError>)
        ensures
            distinct_codenames(self@),
            match find_device(self@, codename@) {
                Some(d) => found matches Ok(device) && device@ == d,
                None => found matches Err(e) && e@ == ErrorView::UnknownDevice(codename@),
            },
    {
        proof {
            use_type_invariant(self);
        }
        let mut i: usize = 0;
        assert(self@.skip(0) =~= self@);
        while i < self.devices.len()
            invariant
                i <= self.devices.len(),
                self@ == device_views(self.devices@),
                distinct_codenames(self@),
                find_device(self@, codename@) == find_device(self@.skip(i as int), codename@),
            decreases self.devices.len() - i,
        {
            if str_eq(self.devices[i].codename.as_str(), codename) {
                return Ok(&self.devices[i]);
            }
            assert(self@.skip(i as int).drop_first() =~= self@.skip(i + 1));
            i += 1;
        }
        Err(WorkflowError::UnknownDevice(String::from_str(codename)))
    }
}

proof fn lemma_insert_to_multiset<A>(s: Seq<A>, at: int, x: A)
    requires
        0 <= at <= s.len(),
    ensures
        s.insert(at, x).to_multiset() == s.to_multiset().insert(x),
{
    let t = s.insert(at, x);
    assert(t.remove(at) =~= s);
    assert(t[at] == x);
    vstd::seq_lib::to_multiset_remove(t, at);
    t.to_multiset_ensures();
    assert(t.contains(x));
    assert(t.to_multiset() =~= s.to_multiset().insert(x));
}

/// The devices of the catalog in the order in which they are offered for
/// selection: by display name, and by codename among devices of one name.
pub fn init_devices(catalog: &Catalog) -> (listing: Vec<Device>)
    ensures
        device_views(listing@).to_multiset() == catalog@.to_multiset(),
        in_listing_order(device_views(listing@)),
{
    let mut listing: Vec<Device> = Vec::new();
    let mut i: usize = 0;
    assert(catalog@.take(0) =~= Seq::empty());
    assert(device_views(listing@) =~= Seq::empty());
    while i < catalog.devices.len()
        invariant
            i <= catalog.devices.len(),
            catalog@ == device_views(catalog.devices@),
            device_views(listing@).to_multiset() == catalog@.take(i as int).to_multiset(),
            in_listing_order(device_views(listing@)),
        decreases catalog.devices.len() - i,
    {
        let device = catalog.devices[i].clone();
        let mut at: usize = 0;
        while at < listing.len() && shown_before(&listing[at], &device)
            invariant
                at <= listing.len(),
                forall|k: int| 0 <= k < at ==> listed_before(#[trigger] listing@[k]@, device@),
            decreases listing.len() - at,
        {
            at += 1;
        }
        let ghost before = device_views(listing@);
        listing.insert(at, device);
        proof {
            let after = device_views(listing@);
            let shown = catalog@[i as int];
            assert(after =~= before.insert(at as int, shown));
            lemma_insert_to_multiset(before, at as int, shown);
            assert(catalog@.take(i + 1) =~= catalog@.take(i as int).push(shown));
            vstd::seq_lib::to_multiset_build(catalog@.take(i as int), shown);
            assert forall|a: int, b: int| 0 <= a <= b < after.len() implies listed_before(
                #[trigger] after[a],
                #[trigger] after[b],
            ) by {
                if a == b {
                    lemma_listed_before_total(after[a], after[a]);
                } else if b < at {
                    assert(listed_before(before[a], before[b]));
                } else if a > at {
                    assert(listed_before(before[a - 1], before[b - 1]));
                } else if b == at {
                    assert(listed_before(before[a], shown));
                } else if a == at {
                    lemma_listed_before_total(before[at as int], shown);
                    assert(listed_before(before[at as int], before[b - 1]));
                    lemma_listed_before_transitive(shown, before[at as int], before[b - 1]);
                } else {
                    assert(listed_before(before[a], before[b - 1]));
                }
            }
        }
        i += 1;
    }
    assert(catalog@.take(i as int) =~= catalog@);
    listing
}

/// The listing order leaves no choice: two listings of the same devices,
/// no two of which share a codename, are the same sequence.
pub proof fn lemma_listing_is_unique(a: Seq<DeviceView>, b: Seq<DeviceView>)
    requires
        distinct_codenames(a),
        a.to_multiset() == b.to_multiset(),
        in_listing_order(a),
        in_listing_order(b),
    ensures
        a == b,
    decreases a.len(),
{
    a.to_multiset_ensures();
    b.to_multiset_ensures();
    if a.len() == 0 {
        assert(a =~= b);
    } else {
        assert(a.contains(a[0]));
        assert(b.contains(b[0]));
        assert(a.to_multiset().count(a[0]) > 0);
        assert(b.to_multiset().count(b[0]) > 0);
        assert(b.contains(a[0]));
        assert(a.contains(b[0]));
        let j = choose|j: int| 0 <= j < b.len() && b[j] == a[0];
        let i = choose|i: int| 0 <= i < a.len() && a[i] == b[0];
        assert(listed_before(a[0], a[i]));
        assert(listed_before(b[0], b[j]));
        lemma_listed_before_antisymmetric(a[0], b[0]);
        assert(i == 0) by {
            if i > 0 {
                assert(a[0].codename != a[i].codename);
            }
        }
        let rest_a = a.drop_first();
        let rest_b = b.drop_first();
        assert(a.remove(0) =~= rest_a);
        assert(b.remove(0) =~= rest_b);
        vstd::seq_lib::to_multiset_remove(a, 0);
        vstd::seq_lib::to_multiset_remove(b, 0);
        assert forall|x: int, y: int| 0 <= x < y < rest_a.len() implies (
        #[trigger] rest_a[x]).codename != (#[trigger] rest_a[y]).codename by {
            assert(a[x + 1].codename != a[y + 1].codename);
        }
        assert forall|x: int, y: int| 0 <= x <= y < rest_a.len() implies listed_before(
            #[trigger] rest_a[x],
            #[trigger] rest_a[y],
        ) by {
            assert(listed_before(a[x + 1], a[y + 1]));
        }
        assert forall|x: int, y: int| 0 <= x <= y < rest_b.len() implies listed_before(
            #[trigger] rest_b[x],
            #[trigger] rest_b[y],
        ) by {
            assert(listed_before(b[x + 1], b[y + 1]));
        }
        lemma_listing_is_unique(rest_a, rest_b);
        assert(a =~= seq![a[0]] + rest_a);
        assert(b =~= seq![b[0]] + rest_b);
    }
}

} // verus!
