use vstd::prelude::*;
use vstd::map::*;
use crate::strmap::StrMap;

verus! {

/// The sending half of a connection's unbounded outbound queue, as tokio
/// hands it out; src never looks inside it.
#[verifier::external_type_specification]
#[verifier::external_body]
#[verifier::reject_recursive_types(T)]
pub struct ExUnboundedSender<T>(tokio::sync::mpsc::UnboundedSender<T>);

/// One websocket frame in axum's representation; src never looks inside it.
#[verifier::external_type_specification]
#[verifier::external_body]
pub struct ExMessage(axum::extract::ws::Message);

/// The delivery handle stored for one live device session.
pub type Channel = tokio::sync::mpsc::UnboundedSender<axum::extract::ws::Message>;

/// Relies on tokio's UnboundedSender::clone: a clone is a handle to the very
/// same queue, and later sends cannot tell the two handles apart.
#[verifier::external_body]
pub(crate) fn clone_channel(tx: &Channel) -> (r: Channel)
    ensures
        r == *tx,
{
    tx.clone()
}

/// Relies on tokio's UnboundedSender::send: delivery is fire-and-forget; a
/// closed receiver only makes the send return an error, which is dropped.
#[verifier::external_body]
pub(crate) fn send_text(tx: &Channel, text: &str) {
    let _ = tx.send(axum::extract::ws::Message::Text(text.to_string()));
}

/// A device list as the contracts see it: device name and delivery handle,
/// in registration order.
pub open spec fn dev_seq(s: Seq<(String, Channel)>) -> Seq<(Seq<char>, Channel)> {
    s.map_values(|p: (String, Channel)| (p.0@, p.1))
}

/// No two entries of the list are for the same device.
pub open spec fn unique_dev(s: Seq<(Seq<char>, Channel)>) -> bool {
    forall|i: int, j: int| 0 <= i < j < s.len() ==> (#[trigger] s[i]).0 != (#[trigger] s[j]).0
}

/// The list with every entry of the named device taken out, order kept.
pub open spec fn remove_device(s: Seq<(Seq<char>, Channel)>, d: Seq<char>) -> Seq<(Seq<char>, Channel)>
    decreases s.len(),
{
    if s.len() == 0 {
        Seq::empty()
    } else if s.last().0 == d {
        remove_device(s.drop_last(), d)
    } else {
        remove_device(s.drop_last(), d).push(s.last())
    }
}

/// The delivery handles of a device list, in order.
pub open spec fn channels_of(s: Seq<(Seq<char>, Channel)>) -> Seq<Channel> {
    s.map_values(|p: (Seq<char>, Channel)| p.1)
}

/// The device list a registry view holds for a user; empty when absent.
pub open spec fn devices_of(
    m: Map<Seq<char>, Seq<(Seq<char>, Channel)>>,
    u: Seq<char>,
) -> Seq<(Seq<char>, Channel)> {
    if m.contains_key(u) {
        m[u]
    } else {
        Seq::empty()
    }
}

/// What registering a device does to the registry view: any prior entry for
/// the device goes, the new handle comes last.
pub open spec fn spec_register(
    m: Map<Seq<char>, Seq<(Seq<char>, Channel)>>,
    u: Seq<char>,
    d: Seq<char>,
    tx: Channel,
) -> Map<Seq<char>, Seq<(Seq<char>, Channel)>> {
    m.insert(u, remove_device(devices_of(m, u), d).push((d, tx)))
}

/// What unregistering a device does to the registry view: the device's entry
/// goes, and a user left with no devices goes entirely.
pub open spec fn spec_unregister(
    m: Map<Seq<char>, Seq<(Seq<char>, Channel)>>,
    u: Seq<char>,
    d: Seq<char>,
) -> Map<Seq<char>, Seq<(Seq<char>, Channel)>> {
    if !m.contains_key(u) {
        m
    } else if remove_device(m[u], d).len() == 0 {
        m.remove(u)
    } else {
        m.insert(u, remove_device(m[u], d))
    }
}

/// `remove_device` keeps exactly the entries of the other devices: none of
/// the removed device remains, every other entry survives, and a unique list
/// stays unique.
pub proof fn lemma_remove_device_props(s: Seq<(Seq<char>, Channel)>, d: Seq<char>)
    ensures
        forall|i: int|
            0 <= i < remove_device(s, d).len() ==> (#[trigger] remove_device(s, d)[i]).0 != d
                && s.contains(remove_device(s, d)[i]),
        forall|j: int|
            0 <= j < s.len() && (#[trigger] s[j]).0 != d ==> remove_device(s, d).contains(s[j]),
        unique_dev(s) ==> unique_dev(remove_device(s, d)),
    decreases s.len(),
{
    if s.len() > 0 {
        let s0 = s.drop_last();
        lemma_remove_device_props(s0, d);
        assert forall|j: int| 0 <= j < s0.len() implies s.contains(s0[j]) by {
            assert(s[j] == s0[j]);
        }
        assert forall|j: int|
            0 <= j < s.len() && (#[trigger] s[j]).0 != d implies remove_device(s, d).contains(
            s[j],
        ) by {
            if j < s.len() - 1 {
                assert(s0[j] == s[j]);
                assert(remove_device(s0, d).contains(s0[j]));
                if s.last().0 != d {
                    let r0 = remove_device(s0, d);
                    let w = choose|w: int| 0 <= w < r0.len() && r0[w] == s0[j];
                    assert(remove_device(s, d)[w] == s0[j]);
                }
            } else {
                assert(s.last().0 != d);
                assert(remove_device(s, d).last() == s.last());
            }
        }
        if unique_dev(s) {
            assert(unique_dev(s0)) by {
                assert forall|p: int, q: int|
                    0 <= p < q < s0.len() implies (#[trigger] s0[p]).0 != (#[trigger] s0[q]).0 by {
                    assert(s0[p] == s[p]);
                    assert(s0[q] == s[q]);
                }
            }
            if s.last().0 != d {
                let r0 = remove_device(s0, d);
                let r = remove_device(s, d);
                assert forall|p: int, q: int|
                    0 <= p < q < r.len() implies (#[trigger] r[p]).0 != (#[trigger] r[q]).0 by {
                    if q < r.len() - 1 {
                        assert(r0[p] == r[p]);
                        assert(r0[q] == r[q]);
                    } else {
                        assert(r[q] == s.last());
                        assert(r[p] == r0[p]);
                        assert(s0.contains(r0[p]));
                        let w = choose|w: int| 0 <= w < s0.len() && s0[w] == r0[p];
                        assert(s[w] == s0[w]);
                        assert(s[w].0 != s.last().0);
                    }
                }
            }
        }
    }
}

/// Removing at a found index is removing the device, when devices are unique.
proof fn lemma_remove_device_found(s: Seq<(Seq<char>, Channel)>, i: int)
    requires
        unique_dev(s),
        0 <= i < s.len(),
    ensures
        remove_device(s, s[i].0) =~= s.remove(i),
    decreases s.len(),
{
    let d = s[i].0;
    let s0 = s.drop_last();
    assert(unique_dev(s0)) by {
        assert forall|p: int, q: int|
            0 <= p < q < s0.len() implies (#[trigger] s0[p]).0 != (#[trigger] s0[q]).0 by {
            assert(s0[p] == s[p]);
            assert(s0[q] == s[q]);
        }
    }
    if i == s.len() - 1 {
        assert(s.last().0 == d);
        assert forall|j: int| 0 <= j < s0.len() implies (#[trigger] s0[j]).0 != d by {
            assert(s0[j] == s[j]);
        }
        lemma_remove_device_absent(s0, d);
        assert(s.remove(i) =~= s0);
    } else {
        assert(s0[i] == s[i]);
        assert(s.last().0 != d);
        lemma_remove_device_found(s0, i);
        assert(remove_device(s, d) =~= s0.remove(i).push(s.last()));
        assert(s.remove(i) =~= s0.remove(i).push(s.last()));
    }
}

/// Removing a device that is not in the list changes nothing.
proof fn lemma_remove_device_absent(s: Seq<(Seq<char>, Channel)>, d: Seq<char>)
    requires
        forall|j: int| 0 <= j < s.len() ==> (#[trigger] s[j]).0 != d,
    ensures
        remove_device(s, d) =~= s,
    decreases s.len(),
{
    if s.len() > 0 {
        let s0 = s.drop_last();
        assert forall|j: int| 0 <= j < s0.len() implies (#[trigger] s0[j]).0 != d by {
            assert(s0[j] == s[j]);
        }
        lemma_remove_device_absent(s0, d);
        assert(s.last().0 != d);
        assert(remove_device(s, d) =~= s0.push(s.last()));
        assert(s0.push(s.last()) =~= s);
    }
}

/// Removing the only device a user has empties the list.
proof fn lemma_remove_device_all(s: Seq<(Seq<char>, Channel)>, d: Seq<char>)
    requires
        forall|j: int| 0 <= j < s.len() ==> (#[trigger] s[j]).0 == d,
    ensures
        remove_device(s, d).len() == 0,
    decreases s.len(),
{
    if s.len() > 0 {
        let s0 = s.drop_last();
        assert forall|j: int| 0 <= j < s0.len() implies (#[trigger] s0[j]).0 == d by {
            assert(s0[j] == s[j]);
        }
        lemma_remove_device_all(s0, d);
    }
}

/// After the last device of a user is unregistered, no entry remains for
/// that user: empty buckets are collected.
pub proof fn lemma_unregister_last_device(
    m: Map<Seq<char>, Seq<(Seq<char>, Channel)>>,
    u: Seq<char>,
    d: Seq<char>,
)
    requires
        m.contains_key(u),
        forall|j: int| 0 <= j < m[u].len() ==> (#[trigger] m[u][j]).0 == d,
    ensures
        !spec_unregister(m, u, d).contains_key(u),
{
    lemma_remove_device_all(m[u], d);
}

/// After a registration the user holds exactly one entry for the device: it
/// carries the registered handle, stands last, and no earlier entry names
/// the device again.
pub proof fn lemma_register_exactly_one(
    m: Map<Seq<char>, Seq<(Seq<char>, Channel)>>,
    u: Seq<char>,
    d: Seq<char>,
    tx: Channel,
)
    ensures
        ({
            let devs = devices_of(spec_register(m, u, d, tx), u);
            devs.len() >= 1 && devs.last() == (d, tx) && forall|i: int|
                0 <= i < devs.len() - 1 ==> (#[trigger] devs[i]).0 != d
        }),
{
    lemma_remove_device_props(devices_of(m, u), d);
    let devs = devices_of(spec_register(m, u, d, tx), u);
    let r = remove_device(devices_of(m, u), d);
    assert(devs == r.push((d, tx)));
    assert forall|i: int| 0 <= i < devs.len() - 1 implies (#[trigger] devs[i]).0 != d by {
        assert(devs[i] == r[i]);
    }
}

/// The live-session registry: per user, the devices connected right now and
/// the handle to each one's outbound queue.
pub struct ConnectionMap {
    conns: StrMap<Vec<(String, Channel)>>,
}

/// The registry as the contracts see it.
pub open spec fn lift(
    m: Map<Seq<char>, Vec<(String, Channel)>>,
) -> Map<Seq<char>, Seq<(Seq<char>, Channel)>> {
    m.map_values(|v: Vec<(String, Channel)>| dev_seq(v@))
}

impl View for ConnectionMap {
    type V = Map<Seq<char>, Seq<(Seq<char>, Channel)>>;

    closed spec fn view(&self) -> Map<Seq<char>, Seq<(Seq<char>, Channel)>> {
        lift(self.conns@)
    }
}

/// The index of the entry for device `d`, if the list has one.
fn find_dev(devs: &Vec<(String, Channel)>, d: &String) -> (r: Option<usize>)
    ensures
        match r {
            Some(w) => w < devs@.len() && devs@[w as int].0@ == d@,
            None => forall|j: int| 0 <= j < devs@.len() ==> (#[trigger] devs@[j]).0@ != d@,
        },
{
    let mut i: usize = 0;
    while i < devs.len()
        invariant
            i <= devs@.len(),
            forall|j: int| 0 <= j < i ==> (#[trigger] devs@[j]).0@ != d@,
        decreases devs@.len() - i,
    {
        if devs[i].0 == *d {
            return Some(i);
        }
        i = i + 1;
    }
    None
}

impl ConnectionMap {
    /// Users are held once, device lists are non-empty and name each device
    /// once.
    pub closed spec fn inv(&self) -> bool {
        &&& self.conns.inv()
        &&& forall|u: Seq<char>|
            #[trigger] self.conns@.contains_key(u) ==> unique_dev(dev_seq(self.conns@[u]@))
                && self.conns@[u]@.len() > 0
    }

    pub fn new() -> (m: ConnectionMap)
        ensures
            m.inv(),
            m@ == Map::<Seq<char>, Seq<(Seq<char>, Channel)>>::empty(),
    {
        let m = ConnectionMap { conns: StrMap::new() };
        proof {
            assert(m@ =~= Map::<Seq<char>, Seq<(Seq<char>, Channel)>>::empty());
        }
        m
    }

    /// Inserts or replaces the entry for `(user_id, device_id)`; the last
    /// registration wins the device slot.
    pub fn register(&mut self, user_id: &str, device_id: &str, tx: Channel)
        requires
            old(self).inv(),
        ensures
            final(self).inv(),
            final(self)@ == spec_register(old(self)@, user_id@, device_id@, tx),
    {
        let u = user_id.to_owned();
        let d = device_id.to_owned();
        let ghost m0 = self.conns@;
        let mut devs: Vec<(String, Channel)> = match self.conns.take(&u) {
            Some(v) => v,
            None => Vec::new(),
        };
        let ghost s0 = dev_seq(devs@);
        proof {
            if m0.contains_key(u@) {
                assert(devices_of(lift(m0), u@) =~= s0);
            } else {
                assert(!lift(m0).contains_key(u@));
                assert(devices_of(lift(m0), u@) =~= s0);
            }
            assert(unique_dev(s0)) by {
                if m0.contains_key(u@) {
                } else {
                    assert(s0.len() == 0);
                }
            }
        }
        match find_dev(&devs, &d) {
            Some(w) => {
                let ghost sbefore = devs@;
                devs.remove(w);
                proof {
                    assert(s0[w as int].0 == sbefore[w as int].0@);
                    lemma_remove_device_found(s0, w as int);
                    assert(dev_seq(devs@) =~= s0.remove(w as int));
                    assert(dev_seq(devs@) =~= remove_device(s0, d@));
                }
            },
            None => {
                proof {
                    assert forall|j: int| 0 <= j < s0.len() implies (#[trigger] s0[j]).0 != d@ by {
                        assert(s0[j].0 == devs@[j].0@);
                    }
                    lemma_remove_device_absent(s0, d@);
                    assert(dev_seq(devs@) =~= remove_device(s0, d@));
                }
            },
        }
        let ghost s1 = dev_seq(devs@);
        devs.push((d, tx));
        let ghost dv = devs@;
        proof {
            assert(dev_seq(dv) =~= s1.push((device_id@, tx)));
            lemma_remove_device_props(s0, d@);
            assert(unique_dev(dev_seq(dv))) by {
                let r = dev_seq(dv);
                assert forall|p: int, q: int|
                    0 <= p < q < r.len() implies (#[trigger] r[p]).0 != (#[trigger] r[q]).0 by {
                    if q < r.len() - 1 {
                        assert(r[p] == s1[p]);
                        assert(r[q] == s1[q]);
                    } else {
                        assert(r[p] == s1[p]);
                        assert(s1[p].0 != d@);
                    }
                }
            }
        }
        self.conns.insert(u, devs);
        proof {
            assert_maps_equal!(lift(self.conns@), lift(m0).insert(user_id@, dev_seq(dv)), k => {});
            assert(dev_seq(dv) == remove_device(devices_of(lift(m0), user_id@), device_id@).push(
                (device_id@, tx),
            ));
            assert(self@ == spec_register(lift(m0), user_id@, device_id@, tx));
            assert forall|uu: Seq<char>| #[trigger] self.conns@.contains_key(uu) implies unique_dev(
                dev_seq(self.conns@[uu]@),
            ) && self.conns@[uu]@.len() > 0 by {
                if uu == u@ {
                    assert(self.conns@[uu] == devs);
                } else {
                    assert(m0.contains_key(uu));
                    assert(self.conns@[uu] == m0[uu]);
                }
            }
        }
    }

    /// Drops the entry for `(user_id, device_id)`; an absent user or device
    /// is a no-op, and a user left with no devices is dropped entirely.
    pub fn unregister(&mut self, user_id: &str, device_id: &str)
        requires
            old(self).inv(),
        ensures
            final(self).inv(),
            final(self)@ == spec_unregister(old(self)@, user_id@, device_id@),
    {
        let u = user_id.to_owned();
        let d = device_id.to_owned();
        let ghost m0 = self.conns@;
        match self.conns.take(&u) {
            None => {
                proof {
                    assert(!lift(m0).contains_key(u@));
                    assert(self@ == spec_unregister(lift(m0), user_id@, device_id@));
                }
            },
            Some(mut devs) => {
                let ghost s0 = dev_seq(devs@);
                proof {
                    assert(m0.contains_key(u@));
                    assert(unique_dev(s0));
                    assert(lift(m0)[u@] == s0);
                }
                match find_dev(&devs, &d) {
                    Some(w) => {
                        let ghost sbefore = devs@;
                        devs.remove(w);
                        proof {
                            assert(s0[w as int].0 == sbefore[w as int].0@);
                            lemma_remove_device_found(s0, w as int);
                            assert(dev_seq(devs@) =~= s0.remove(w as int));
                            assert(dev_seq(devs@) =~= remove_device(s0, d@));
                        }
                    },
                    None => {
                        proof {
                            assert forall|j: int| 0 <= j < s0.len() implies (#[trigger] s0[j]).0
                                != d@ by {
                                assert(s0[j].0 == devs@[j].0@);
                            }
                            lemma_remove_device_absent(s0, d@);
                            assert(dev_seq(devs@) =~= remove_device(s0, d@));
                        }
                    },
                }
                proof {
                    lemma_remove_device_props(s0, d@);
                }
                if devs.is_empty() {
                    proof {
                        assert(remove_device(s0, d@).len() == 0);
                        assert_maps_equal!(lift(self.conns@), lift(m0).remove(user_id@), k => {});
                        assert(self@ == spec_unregister(lift(m0), user_id@, device_id@));
                        assert forall|uu: Seq<char>| #[trigger] self.conns@.contains_key(uu)
                            implies unique_dev(dev_seq(self.conns@[uu]@)) && self.conns@[uu]@.len()
                            > 0 by {
                            assert(m0.contains_key(uu));
                            assert(self.conns@[uu] == m0[uu]);
                        }
                    }
                } else {
                    let ghost dv = devs@;
                    self.conns.insert(u, devs);
                    proof {
                        assert(dev_seq(dv).len() > 0);
                        assert_maps_equal!(lift(self.conns@),
                            lift(m0).insert(user_id@, dev_seq(dv)), k => {});
                        assert(self@ == spec_unregister(lift(m0), user_id@, device_id@));
                        assert forall|uu: Seq<char>| #[trigger] self.conns@.contains_key(uu)
                            implies unique_dev(dev_seq(self.conns@[uu]@)) && self.conns@[uu]@.len()
                            > 0 by {
                            if uu == u@ {
                                assert(self.conns@[uu] == devs);
                            } else {
                                assert(m0.contains_key(uu));
                                assert(self.conns@[uu] == m0[uu]);
                            }
                        }
                    }
                }
            },
        }
    }

    /// A snapshot of the delivery handles of every device the user has
    /// registered except the excluded one, in registration order.
    pub fn get_other_devices(&self, user_id: &str, exclude_device_id: &str) -> (r: Vec<Channel>)
        requires
            self.inv(),
        ensures
            r@ == channels_of(remove_device(devices_of(self@, user_id@), exclude_device_id@)),
    {
        let u = user_id.to_owned();
        let exd = exclude_device_id.to_owned();
        let ghost ex = exclude_device_id@;
        let mut out: Vec<Channel> = Vec::new();
        match self.conns.get(&u) {
            None => {
                proof {
                    assert(!self@.contains_key(user_id@));
                    assert(out@ =~= channels_of(remove_device(devices_of(self@, user_id@), ex)));
                }
            },
            Some(devs) => {
                let ghost s = dev_seq(devs@);
                proof {
                    assert(self@.contains_key(user_id@));
                    assert(devices_of(self@, user_id@) == s);
                }
                let mut i: usize = 0;
                while i < devs.len()
                    invariant
                        i <= devs@.len(),
                        s == dev_seq(devs@),
                        ex == exclude_device_id@,
                        exd@ == ex,
                        out@ == channels_of(remove_device(s.take(i as int), ex)),
                    decreases devs@.len() - i,
                {
                    let keep = !(devs[i].0 == exd);
                    if keep {
                        out.push(clone_channel(&devs[i].1));
                    }
                    proof {
                        let t = s.take(i + 1 as int);
                        assert(t.drop_last() =~= s.take(i as int));
                        assert(t.last() == s[i as int]);
                        assert(s[i as int].0 == devs@[i as int].0@);
                        if keep {
                            assert(out@ =~= channels_of(
                                remove_device(s.take(i as int), ex).push(s[i as int]),
                            ));
                        }
                        assert(out@ =~= channels_of(remove_device(s.take(i + 1 as int), ex)));
                    }
                    i = i + 1;
                }
                proof {
                    assert(s.take(devs@.len() as int) =~= s);
                }
            },
        }
        out
    }
}

} // verus!
