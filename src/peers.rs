//! Records of discovered peers and the table that holds one record per endpoint id.

use vstd::prelude::*;
use crate::text::same_text;

verus! {

/// How a peer became known.
#[derive(Debug, Clone, Copy, PartialEq, Eq, Hash)]
pub enum PeerType {
    /// Configured by the operator.
    Static,
    /// Found by discovery.
    Dynamic,
}

/// A peer: its endpoint id, the address it was seen at, how it became known and
/// the transports it offers, each with an optional port.
#[derive(Debug, Clone, PartialEq, Eq, Hash)]
pub struct PeerRecord {
    pub eid: String,
    pub addr: String,
    pub con_type: PeerType,
    pub cla_list: Vec<(String, Option<u16>)>,
}

/// Mathematical value of a peer record.
pub ghost struct PeerModel {
    pub eid: Seq<char>,
    pub addr: Seq<char>,
    pub con_type: PeerType,
    pub cla_list: Seq<(Seq<char>, Option<u16>)>,
}

/// The transports of a record as text and port.
pub open spec fn cla_list_view(l: Seq<(String, Option<u16>)>) -> Seq<(Seq<char>, Option<u16>)> {
    l.map_values(|e: (String, Option<u16>)| (e.0@, e.1))
}

impl View for PeerRecord {
    type V = PeerModel;

    open spec fn view(&self) -> PeerModel {
        PeerModel {
            eid: self.eid@,
            addr: self.addr@,
            con_type: self.con_type,
            cla_list: cla_list_view(self.cla_list@),
        }
    }
}

/// The map from endpoint id to record that a list of records stands for; a later
/// record wins over an earlier one with the same id.
pub open spec fn records_map(s: Seq<PeerModel>) -> Map<Seq<char>, PeerModel>
    decreases s.len(),
{
    if s.len() == 0 {
        Map::empty()
    } else {
        records_map(s.drop_last()).insert(s.last().eid, s.last())
    }
}

/// No two records share an endpoint id.
pub open spec fn unique_ids(s: Seq<PeerModel>) -> bool {
    forall|i: int, j: int|
        0 <= i < s.len() && 0 <= j < s.len() && i != j ==> #[trigger] s[i].eid != #[trigger] s[j].eid
}

proof fn lemma_records_map_update(s: Seq<PeerModel>, i: int, r: PeerModel)
    requires
        0 <= i < s.len(),
        s[i].eid == r.eid,
        unique_ids(s),
    ensures
        records_map(s.update(i, r)) == records_map(s).insert(r.eid, r),
    decreases s.len(),
{
    let n = s.len() - 1;
    let u = s.update(i, r);
    if i == n {
        assert(u.drop_last() =~= s.drop_last());
    } else {
        assert(u.drop_last() =~= s.drop_last().update(i, r));
        assert(s[n].eid != r.eid);
        lemma_records_map_update(s.drop_last(), i, r);
    }
    assert(records_map(u) =~= records_map(s).insert(r.eid, r));
}

/// The peers known to the node, one record per endpoint id.
pub struct PeerTable {
    peers: Vec<PeerRecord>,
}

impl PeerTable {
    pub closed spec fn models(&self) -> Seq<PeerModel> {
        self.peers@.map_values(|p: PeerRecord| p@)
    }

    /// Every endpoint id appears once.
    pub closed spec fn wf(&self) -> bool {
        unique_ids(self.models())
    }

    /// The table as a map from endpoint id to record.
    pub closed spec fn view(&self) -> Map<Seq<char>, PeerModel> {
        records_map(self.models())
    }

    /// An empty table.
    pub fn new() -> (r: PeerTable)
        ensures
            r.wf(),
            r.view() == Map::<Seq<char>, PeerModel>::empty(),
    {
        let r = PeerTable { peers: Vec::new() };
        assert(r.models() =~= Seq::<PeerModel>::empty());
        r
    }

    /// Number of peers in the table.
    pub fn len(&self) -> (r: usize)
        requires
            self.wf(),
        ensures
            r == self.view().len(),
    {
        proof {
            lemma_unique_map_len(self.models());
        }
        self.peers.len()
    }

    /// The record of the peer with endpoint id `eid`, if there is one.
    pub fn get(&self, eid: &str) -> (r: Option<&PeerRecord>)
        requires
            self.wf(),
        ensures
            r.is_none() <==> !self.view().contains_key(eid@),
            r.is_some() ==> r.unwrap()@ == self.view()[eid@],
    {
        match self.position(eid) {
            Some(i) => {
                proof {
                    lemma_unique_map_at(self.models(), i as int);
                }
                Some(&self.peers[i])
            },
            None => None,
        }
    }

    /// Index of the record with endpoint id `eid`.
    fn position(&self, eid: &str) -> (r: Option<usize>)
        requires
            self.wf(),
        ensures
            r.is_some() ==> r.unwrap() < self.peers@.len() && self.models()[r.unwrap() as int].eid
                == eid@,
            r.is_none() ==> forall|i: int|
                0 <= i < self.peers@.len() ==> self.models()[i].eid != eid@,
            r.is_none() <==> !self.view().contains_key(eid@),
    {
        let mut i: usize = 0;
        while i < self.peers.len()
            invariant
                self.wf(),
                0 <= i <= self.peers@.len(),
                forall|j: int| 0 <= j < i ==> self.models()[j].eid != eid@,
            decreases self.peers@.len() - i,
        {
            if same_text(self.peers[i].eid.as_str(), eid) {
                proof {
                    lemma_unique_map_at(self.models(), i as int);
                }
                return Some(i);
            }
            i = i + 1;
        }
        proof {
            lemma_absent_not_in_map(self.models(), eid@);
        }
        None
    }

    /// Inserts `rec`, or replaces the record that has its endpoint id.
    pub fn insert_or_refresh(&mut self, rec: PeerRecord)
        requires
            old(self).wf(),
        ensures
            final(self).wf(),
            final(self).view() == old(self).view().insert(rec.eid@, rec@),
    {
        let ghost m = rec@;
        match self.position(rec.eid.as_str()) {
            Some(i) => {
                proof {
                    lemma_records_map_update(self.models(), i as int, m);
                }
                self.peers.set(i, rec);
                assert(self.models() =~= old(self).models().update(i as int, m));
            },
            None => {
                self.peers.push(rec);
                assert(self.models() =~= old(self).models().push(m));
                assert(self.models().drop_last() =~= old(self).models());
            },
        }
    }
}

proof fn lemma_unique_map_at(s: Seq<PeerModel>, i: int)
    requires
        0 <= i < s.len(),
        unique_ids(s),
    ensures
        records_map(s).contains_key(s[i].eid),
        records_map(s)[s[i].eid] == s[i],
    decreases s.len(),
{
    if i < s.len() - 1 {
        assert(s.last().eid != s[i].eid);
        assert(s.drop_last()[i] == s[i]);
        lemma_unique_map_at(s.drop_last(), i);
    }
}

proof fn lemma_absent_not_in_map(s: Seq<PeerModel>, k: Seq<char>)
    requires
        forall|i: int| 0 <= i < s.len() ==> s[i].eid != k,
    ensures
        !records_map(s).contains_key(k),
    decreases s.len(),
{
    if s.len() > 0 {
        assert(s.last().eid != k);
        assert forall|i: int| 0 <= i < s.drop_last().len() implies s.drop_last()[i].eid != k by {
            assert(s.drop_last()[i] == s[i]);
        }
        lemma_absent_not_in_map(s.drop_last(), k);
    }
}

proof fn lemma_unique_map_len(s: Seq<PeerModel>)
    requires
        unique_ids(s),
    ensures
        records_map(s).dom().finite(),
        records_map(s).len() == s.len(),
    decreases s.len(),
{
    if s.len() > 0 {
        let t = s.drop_last();
        assert forall|i: int, j: int|
            0 <= i < t.len() && 0 <= j < t.len() && i != j implies #[trigger] t[i].eid
            != #[trigger] t[j].eid by {
            assert(t[i] == s[i] && t[j] == s[j]);
        }
        lemma_unique_map_len(t);
        assert forall|i: int| 0 <= i < t.len() implies t[i].eid != s.last().eid by {
            assert(t[i] == s[i]);
        }
        lemma_absent_not_in_map(t, s.last().eid);
    }
}

} // verus!
