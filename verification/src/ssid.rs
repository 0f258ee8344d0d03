use vstd::prelude::*;

verus! {

broadcast use vstd::seq_lib::group_seq_properties;

/// The SSID that the 802.11 frame `frame` announces, when it is a beacon
/// frame that carries an SSID element, as the `ieee80211` crate reads it.
pub uninterp spec fn beacon_ssid_of(frame: Seq<u8>) -> Option<Seq<char>>;

/// Length of the header of a management frame without HT control field.
pub const MGMT_HEADER_LEN: usize = 24;

/// Length of the fixed fields of a beacon body (timestamp, beacon interval,
/// capabilities).
pub const BEACON_FIXED_LEN: usize = 12;

/// Whether `frame` is a beacon in its plainest form: frame control 0x80 0x00
/// (management, beacon subtype, no flags, so no HT control field), the 24-byte
/// header and 12 bytes of fixed fields, then as first element an SSID element
/// (id 0) of at most 32 ASCII bytes; anything may follow the element.
pub open spec fn is_plain_beacon(frame: Seq<u8>) -> bool {
    let at: int = MGMT_HEADER_LEN + BEACON_FIXED_LEN;
    &&& frame.len() >= at + 2
    &&& frame[0] == 0x80u8
    &&& frame[1] == 0x00u8
    &&& frame[at] == 0x00u8
    &&& frame[at + 1] <= 32
    &&& frame.len() >= at + 2 + frame[at + 1]
    &&& forall|i: int| at + 2 <= i < at + 2 + frame[at + 1] ==> #[trigger] frame[i] < 128
}

/// The name that a plain beacon carries: the bytes of its SSID element, each
/// ASCII byte as the character with that code.
pub open spec fn plain_beacon_ssid(frame: Seq<u8>) -> Seq<char> {
    let at: int = MGMT_HEADER_LEN + BEACON_FIXED_LEN;
    frame.subrange(at + 2, at + 2 + frame[at + 1]).map_values(|b: u8| b as char)
}

/// Reads `packet` with `ieee80211::GenericFrame::new` (no frame check
/// sequence), types it with `GenericFrame::parse_to_typed` as a
/// `ieee80211::mgmt_frame::BeaconFrame`, and takes `BeaconLikeBody::ssid`.
/// Claimed: the answer depends on the bytes alone and is the one named by
/// `beacon_ssid_of`; for a plain beacon (see `is_plain_beacon`) it is the
/// whole SSID element: the frame control field marks a management beacon
/// without the order flag, so the header is 24 bytes, the body's fixed fields
/// are 12 bytes, the first element with id 0 is taken, and its bytes are read
/// as UTF-8 (ASCII here) when they are at most 32. Other frame layouts are
/// left unsaid.
#[verifier::external_body]
fn beacon_ssid(packet: &[u8]) -> (r: Option<String>)
    ensures
        r is Some <==> beacon_ssid_of(packet@) is Some,
        r matches Some(s) ==> beacon_ssid_of(packet@) == Some(s@),
        is_plain_beacon(packet@) ==> r is Some && r.unwrap()@ == plain_beacon_ssid(packet@),
{
    match ieee80211::GenericFrame::new(packet, false) {
        Ok(frame) => match frame.parse_to_typed::<ieee80211::mgmt_frame::BeaconFrame>() {
            Some(Ok(beacon)) => beacon.ssid().map(String::from),
            Some(Err(_)) => None,
            None => None,
        },
        Err(_) => None,
    }
}

/// The set of network names seen so far, each kept once.
pub struct SsidRegistry {
    seen: Vec<String>,
}

impl SsidRegistry {
    /// The names in the order they were first seen.
    pub closed spec fn names(self) -> Seq<Seq<char>> {
        self.seen@.map_values(|s: String| s@)
    }

    #[verifier::type_invariant]
    spec fn each_once(self) -> bool {
        self.names().no_duplicates()
    }
}

impl View for SsidRegistry {
    type V = Set<Seq<char>>;

    /// The set of names seen.
    closed spec fn view(&self) -> Set<Seq<char>> {
        self.names().to_set()
    }
}

impl SsidRegistry {
    /// A registry that has seen no network.
    pub fn new() -> (r: SsidRegistry)
        ensures
            r@ == Set::<Seq<char>>::empty(),
    {
        let r = SsidRegistry { seen: Vec::new() };
        assert(r.names() =~= Seq::<Seq<char>>::empty());
        assert(r@ =~= Set::<Seq<char>>::empty());
        r
    }

    /// Whether the name `ssid` has been seen.
    pub fn contains(&self, ssid: &String) -> (r: bool)
        ensures
            r == self@.contains(ssid@),
    {
        let n: usize = self.seen.len();
        for i in 0..n
            invariant
                n == self.seen@.len(),
                forall|j: int| 0 <= j < i ==> self.names()[j] != ssid@,
        {
            if self.seen[i] == *ssid {
                assert(self.names()[i as int] == ssid@);
                return true;
            }
        }
        assert(!self.names().contains(ssid@));
        false
    }

    /// Number of distinct names seen.
    pub fn len(&self) -> (r: usize)
        ensures
            r == self@.len(),
    {
        proof {
            use_type_invariant(self);
            self.names().unique_seq_to_set();
        }
        self.seen.len()
    }

    /// Records the name `ssid`; answers whether it had not been seen before.
    pub fn insert(&mut self, ssid: String) -> (added: bool)
        ensures
            added == !old(self)@.contains(ssid@),
            final(self)@ == old(self)@.insert(ssid@),
    {
        proof {
            use_type_invariant(&*self);
        }
        if self.contains(&ssid) {
            assert(self@.insert(ssid@) =~= self@);
            false
        } else {
            let ghost before = self.names();
            let ghost name = ssid@;
            let mut seen: Vec<String> = Vec::new();
            std::mem::swap(&mut seen, &mut self.seen);
            seen.push(ssid);
            assert(seen@.map_values(|s: String| s@) =~= before.push(name));
            self.seen = seen;
            assert(self.names() =~= before.push(name));
            assert(self@ =~= before.to_set().insert(name));
            true
        }
    }

    /// Records the SSID read from a captured frame, if there is one, and
    /// answers the name to report when it had not been seen before.
    pub fn observe_ssid(&mut self, ssid: Option<String>) -> (r: Option<String>)
        ensures
            ssid is None ==> r is None && final(self)@ == old(self)@,
            ssid matches Some(s) ==> final(self)@ == old(self)@.insert(s@) && (r is Some <==> !old(
                self,
            )@.contains(s@)) && (r matches Some(x) ==> x@ == s@),
            ssid matches Some(s) ==> sightings(old(self)@, seq![s@]) == (
                final(self)@,
                reported(r),
            ),
    {
        proof {
            if ssid is Some {
                let name = ssid->0;
                assert(seq![name@].drop_last() =~= Seq::<Seq<char>>::empty());
                reveal_with_fuel(sightings, 2);
                assert(Seq::<Seq<char>>::empty().push(name@) =~= seq![name@]);
            }
        }
        match ssid {
            Some(name) => {
                let report = name.clone();
                if self.insert(name) {
                    Some(report)
                } else {
                    None
                }
            },
            None => None,
        }
    }

    /// Handles one frame caught in promiscuous mode: reads the SSID of a
    /// beacon and records it; answers the name when it is new.
    pub fn observe_frame(&mut self, packet: &[u8]) -> (r: Option<String>)
        ensures
            beacon_ssid_of(packet@) is None ==> r is None && final(self)@ == old(self)@,
            beacon_ssid_of(packet@) matches Some(s) ==> final(self)@ == old(self)@.insert(s) && (
            r is Some <==> !old(self)@.contains(s)) && (r matches Some(x) ==> x@ == s),
            is_plain_beacon(packet@) ==> beacon_ssid_of(packet@) == Some(plain_beacon_ssid(packet@)),
    {
        let ssid = beacon_ssid(packet);
        self.observe_ssid(ssid)
    }
}

/// A plain beacon built from a header, an SSID element carrying `name`, and
/// any further bytes `rest`.
pub open spec fn plain_beacon(header: Seq<u8>, name: Seq<u8>, rest: Seq<u8>) -> Seq<u8> {
    header + seq![0x00u8, name.len() as u8] + name + rest
}

/// A beacon whose first element is an SSID element carrying an ASCII `name`
/// of at most 32 bytes is read whole: the name reported and recorded has
/// exactly as many characters as the element has bytes, and each character
/// is the corresponding byte; what follows the element does not matter.
pub proof fn lemma_beacon_name_read_whole(header: Seq<u8>, name: Seq<u8>, rest: Seq<u8>)
    requires
        header.len() == MGMT_HEADER_LEN + BEACON_FIXED_LEN,
        header[0] == 0x80u8,
        header[1] == 0x00u8,
        name.len() <= 32,
        forall|i: int| 0 <= i < name.len() ==> #[trigger] name[i] < 128,
    ensures
        is_plain_beacon(plain_beacon(header, name, rest)),
        plain_beacon_ssid(plain_beacon(header, name, rest)).len() == name.len(),
        forall|i: int|
            0 <= i < name.len() ==> #[trigger] plain_beacon_ssid(
                plain_beacon(header, name, rest),
            )[i] as u32 == name[i] as u32,
        plain_beacon_ssid(plain_beacon(header, name, rest + seq![0x00u8, 0x01u8, 0x41u8]))
            == plain_beacon_ssid(plain_beacon(header, name, rest)),
{
    let f = plain_beacon(header, name, rest);
    let at: int = 36;
    assert(f[at] == 0x00u8);
    assert(f[at + 1] == name.len() as u8);
    assert forall|i: int| at + 2 <= i < at + 2 + f[at + 1] implies #[trigger] f[i] < 128 by {
        assert(f[i] == name[i - at - 2]);
    }
    assert(f.subrange(at + 2, at + 2 + f[at + 1]) =~= name);
    let g = plain_beacon(header, name, rest + seq![0x00u8, 0x01u8, 0x41u8]);
    assert(g.subrange(at + 2, at + 2 + g[at + 1]) =~= name);
}

/// The names that an answer of `observe_ssid` reports: none or one.
pub open spec fn reported(r: Option<String>) -> Seq<Seq<char>> {
    match r {
        Some(name) => seq![name@],
        None => seq![],
    }
}

/// The names reported, in order, when the names `sighted` are observed one
/// after another by a registry that has seen `seen`, and the set seen at the
/// end.
pub open spec fn sightings(seen: Set<Seq<char>>, sighted: Seq<Seq<char>>) -> (
    Set<Seq<char>>,
    Seq<Seq<char>>,
)
    decreases sighted.len(),
{
    if sighted.len() == 0 {
        (seen, seq![])
    } else {
        let (before, reported) = sightings(seen, sighted.drop_last());
        let name = sighted.last();
        if before.contains(name) {
            (before.insert(name), reported)
        } else {
            (before.insert(name), reported.push(name))
        }
    }
}

/// Over any run of sightings, each network is reported exactly once, the
/// first time it is seen: the reports hold no name twice, they are exactly the
/// sighted names not seen before, and afterwards every sighted name is known.
pub proof fn lemma_each_network_reported_once(seen: Set<Seq<char>>, sighted: Seq<Seq<char>>)
    ensures
        sightings(seen, sighted).1.no_duplicates(),
        sightings(seen, sighted).1.to_set() == sighted.to_set().difference(seen),
        sightings(seen, sighted).0 == seen.union(sighted.to_set()),
    decreases sighted.len(),
{
    if sighted.len() == 0 {
        assert(sighted.to_set() =~= Set::<Seq<char>>::empty());
        assert(sightings(seen, sighted).1.to_set() =~= Set::<Seq<char>>::empty());
        assert(seen.union(sighted.to_set()) =~= seen);
    } else {
        let rest = sighted.drop_last();
        let name = sighted.last();
        lemma_each_network_reported_once(seen, rest);
        let (before, reported) = sightings(seen, rest);
        assert(sighted =~= rest.push(name));
        assert(sighted.to_set() =~= rest.to_set().insert(name));
        if before.contains(name) {
            assert(sighted.to_set().difference(seen) =~= rest.to_set().difference(seen));
        } else {
            if reported.contains(name) {
                assert(reported.to_set().contains(name));
                assert(rest.to_set().contains(name));
                assert(before.contains(name));
            }
            assert(reported.push(name).to_set() =~= reported.to_set().insert(name));
            assert(sighted.to_set().difference(seen) =~= rest.to_set().difference(seen).insert(name));
        }
        assert(sightings(seen, sighted).0 =~= seen.union(sighted.to_set()));
    }
}

} // verus!
