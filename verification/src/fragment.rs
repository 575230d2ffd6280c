//! Reassembly of fragmented notify payloads: a table keyed by
//! (stream id, frame id) buffering each exchange's messages, in order, until
//! its final fragment arrives.

use vstd::prelude::*;
use crate::frame::{Message, MessageV, msgs_view};

verus! {

type Entry = ((u64, u64), Vec<Message>);

pub open spec fn keys_distinct(s: Seq<Entry>) -> bool {
    forall|i: int, j: int| 0 <= i < j < s.len() ==> (#[trigger] s[i]).0 != (#[trigger] s[j]).0
}

/// The map an entry list denotes.
pub closed spec fn table_map(s: Seq<Entry>) -> Map<(u64, u64), Seq<MessageV>>
    decreases s.len(),
{
    if s.len() == 0 {
        Map::empty()
    } else {
        table_map(s.drop_last()).insert(s.last().0, msgs_view(s.last().1@))
    }
}

proof fn lemma_table_map(s: Seq<Entry>)
    requires
        keys_distinct(s),
    ensures
        forall|i: int|
            0 <= i < s.len() ==> table_map(s).contains_key((#[trigger] s[i]).0) && table_map(
                s,
            )[s[i].0] == msgs_view(s[i].1@),
        forall|k: (u64, u64)|
            table_map(s).contains_key(k) ==> exists|i: int|
                0 <= i < s.len() && (#[trigger] s[i]).0 == k,
    decreases s.len(),
{
    if s.len() > 0 {
        let pre = s.drop_last();
        assert(forall|i: int| 0 <= i < pre.len() ==> #[trigger] pre[i] == s[i]);
        assert(keys_distinct(pre));
        lemma_table_map(pre);
        assert forall|i: int|
            0 <= i < s.len() implies table_map(s).contains_key((#[trigger] s[i]).0) && table_map(
            s,
        )[s[i].0] == msgs_view(s[i].1@) by {
            if i < s.len() - 1 {
                assert(pre[i] == s[i]);
                assert(s[i].0 != s[s.len() - 1].0);
                assert(table_map(pre).contains_key(s[i].0));
                assert(table_map(pre)[s[i].0] == msgs_view(s[i].1@));
            } else {
                assert(s.last() == s[i]);
            }
        }
        assert forall|k: (u64, u64)| table_map(s).contains_key(k) implies exists|i: int|
            0 <= i < s.len() && (#[trigger] s[i]).0 == k by {
            if k == s.last().0 {
                assert((s[s.len() - 1]).0 == k);
            } else {
                assert(table_map(pre).contains_key(k));
                let i = choose|i: int| 0 <= i < pre.len() && (#[trigger] pre[i]).0 == k;
                assert(pre[i] == s[i]);
                assert((s[i]).0 == k);
            }
        }
    }
}

proof fn lemma_table_map_remove(s: Seq<Entry>, i: int)
    requires
        keys_distinct(s),
        0 <= i < s.len(),
    ensures
        keys_distinct(s.remove(i)),
        table_map(s.remove(i)) =~= table_map(s).remove(s[i].0),
{
    let t = s.remove(i);
    s.remove_ensures(i);
    lemma_table_map(s);
    assert forall|a: int, b: int|
        0 <= a < b < t.len() implies (#[trigger] t[a]).0 != (#[trigger] t[b]).0 by {
        let a2: int = if a < i {
            a
        } else {
            a + 1
        };
        let b2: int = if b < i {
            b
        } else {
            b + 1
        };
        assert(s.remove(i)[a] == s[a2]);
        assert(s.remove(i)[b] == s[b2]);
        assert(s[a2].0 != s[b2].0);
    }
    lemma_table_map(t);
    assert forall|k2: (u64, u64)| table_map(t).contains_key(k2) implies table_map(s).remove(
        s[i].0,
    ).contains_key(k2) && table_map(t)[k2] == table_map(s).remove(s[i].0)[k2] by {
        let j = choose|j: int| 0 <= j < t.len() && (#[trigger] t[j]).0 == k2;
        let j2: int = if j < i {
            j
        } else {
            j + 1
        };
        assert(s.remove(i)[j] == s[j2]);
        assert(s[j2].0 == k2);
        assert(k2 != s[i].0);
        assert(table_map(t)[(t[j]).0] == msgs_view(t[j].1@));
        assert(table_map(s)[(s[j2]).0] == msgs_view(s[j2].1@));
    }
    assert forall|k2: (u64, u64)|
        table_map(s).remove(s[i].0).contains_key(k2) implies table_map(t).contains_key(k2) by {
        assert(table_map(s).contains_key(k2));
        let j2 = choose|j2: int| 0 <= j2 < s.len() && (#[trigger] s[j2]).0 == k2;
        assert(j2 != i);
        let j: int = if j2 < i {
            j2
        } else {
            j2 - 1
        };
        assert(s.remove(i)[j] == s[j2]);
        assert((t[j]).0 == k2);
        assert(table_map(t).contains_key((t[j]).0));
    }
}

/// The per-connection reassembly table.  Its model is a map from
/// (stream id, frame id) to the messages buffered for that exchange, in the
/// order they arrived.
#[derive(Debug, PartialEq, Eq)]
pub struct Reassembly {
    entries: Vec<Entry>,
}

impl View for Reassembly {
    type V = Map<(u64, u64), Seq<MessageV>>;

    closed spec fn view(&self) -> Map<(u64, u64), Seq<MessageV>> {
        table_map(self.entries@)
    }
}

impl Reassembly {
    /// The table keeps one buffer per key.
    pub closed spec fn wf(&self) -> bool {
        keys_distinct(self.entries@)
    }

    /// An empty table.
    pub fn new() -> (r: Reassembly)
        ensures
            r.wf(),
            r@ == Map::<(u64, u64), Seq<MessageV>>::empty(),
    {
        let r = Reassembly { entries: Vec::new() };
        proof {
            assert(r.entries@.len() == 0);
        }
        r
    }

    /// Removes and returns the buffer under the key, if any.
    fn take_entry(&mut self, stream_id: u64, frame_id: u64) -> (r: Option<Vec<Message>>)
        requires
            old(self).wf(),
        ensures
            final(self).wf(),
            match r {
                Some(b) => old(self)@.contains_key((stream_id, frame_id)) && msgs_view(b@) == old(
                    self,
                )@[(stream_id, frame_id)] && final(self)@ == old(self)@.remove(
                    (stream_id, frame_id),
                ),
                None => !old(self)@.contains_key((stream_id, frame_id)) && final(self)@ == old(
                    self,
                )@,
            },
    {
        let ghost k = (stream_id, frame_id);
        let ghost s0 = self.entries@;
        proof {
            lemma_table_map(s0);
        }
        let mut i: usize = 0;
        while i < self.entries.len()
            invariant
                i <= self.entries@.len(),
                self.entries@ == s0,
                s0 == old(self).entries@,
                keys_distinct(s0),
                k == (stream_id, frame_id),
                forall|j: int| 0 <= j < i ==> (#[trigger] s0[j]).0 != k,
            decreases self.entries@.len() - i,
        {
            let (sid, fid) = self.entries[i].0;
            if sid == stream_id && fid == frame_id {
                proof {
                    lemma_table_map(s0);
                    lemma_table_map_remove(s0, i as int);
                }
                let e = self.entries.remove(i);
                proof {
                    assert(self.entries@ =~= s0.remove(i as int));
                    assert(table_map(s0)[(s0[i as int]).0] == msgs_view(s0[i as int].1@));
                }
                return Some(e.1);
            }
            assert(s0[i as int].0 == (sid, fid));
            assert(sid != stream_id || fid != frame_id);
            assert(k.0 == stream_id && k.1 == frame_id);
            assert(s0[i as int].0.0 == sid && s0[i as int].0.1 == fid);
            assert(s0[i as int].0 != k);
            i = i + 1;
        }
        proof {
            if table_map(s0).contains_key(k) {
                let j = choose|j: int| 0 <= j < s0.len() && (#[trigger] s0[j]).0 == k;
                assert(s0[j].0 != k);
            }
        }
        None
    }

    /// Feeds one notify payload into the table, as the wire rules ask.
    ///
    /// A fragmented payload is buffered under its key, after whatever was
    /// already buffered there, and nothing is returned.  A final payload
    /// clears the key and returns everything buffered for it followed by the
    /// new messages: each exchange's messages come out exactly once, in the
    /// order they arrived, and no other key is touched.
    pub fn reassemble(
        &mut self,
        fragmented: bool,
        stream_id: u64,
        frame_id: u64,
        msgs: Vec<Message>,
    ) -> (r: Option<Vec<Message>>)
        requires
            old(self).wf(),
        ensures
            final(self).wf(),
            ({
                let k = (stream_id, frame_id);
                let m = old(self)@;
                let arrived = msgs_view(msgs@);
                if fragmented {
                    &&& r is None
                    &&& final(self)@ == if m.contains_key(k) {
                        m.insert(k, m[k] + arrived)
                    } else {
                        m.insert(k, arrived)
                    }
                } else {
                    &&& final(self)@ == m.remove(k)
                    &&& r matches Some(out) && msgs_view(out@) == if m.contains_key(k) {
                        m[k] + arrived
                    } else {
                        arrived
                    }
                }
            }),
    {
        let ghost k = (stream_id, frame_id);
        let ghost m = old(self)@;
        let cur = self.take_entry(stream_id, frame_id);
        let ghost had = cur is Some;
        let combined = match cur {
            Some(mut buf) => {
                let ghost bv = buf@;
                let mut tail = msgs;
                buf.append(&mut tail);
                assert(msgs_view(buf@) =~= msgs_view(bv) + msgs_view(msgs@));
                buf
            },
            None => msgs,
        };
        if fragmented {
            let ghost s1 = self.entries@;
            proof {
                lemma_table_map(s1);
            }
            self.entries.push(((stream_id, frame_id), combined));
            proof {
                let s2 = self.entries@;
                assert(s2.drop_last() =~= s1);
                assert(s2.last() == ((stream_id, frame_id), combined));
                assert(!table_map(s1).contains_key(k));
                assert forall|a: int, b: int|
                    0 <= a < b < s2.len() implies (#[trigger] s2[a]).0 != (#[trigger] s2[b]).0 by {
                    if b == s2.len() - 1 {
                        assert(s2[a] == s1[a]);
                        assert(table_map(s1).contains_key((s1[a]).0));
                    } else {
                        assert(s2[a] == s1[a] && s2[b] == s1[b]);
                    }
                }
                assert(table_map(s2) == table_map(s1).insert(k, msgs_view(combined@)));
                if m.contains_key(k) {
                    assert(table_map(s2) =~= m.insert(k, m[k] + msgs_view(msgs@)));
                } else {
                    assert(table_map(s2) =~= m.insert(k, msgs_view(msgs@)));
                }
            }
            None
        } else {
            proof {
                if !m.contains_key(k) {
                    assert(final(self)@ =~= m.remove(k));
                }
            }
            Some(combined)
        }
    }
}

} // verus!
