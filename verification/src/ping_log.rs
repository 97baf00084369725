use vstd::prelude::*;

use crate::text::str_eq;

verus! {

/// The last result of pinging each address, by address.
#[derive(Debug, Clone)]
pub struct PingLog {
    entries: Vec<(String, String)>,
}

/// The result recorded for `ip` among `entries`: the first entry for it.
pub open spec fn lookup(entries: Seq<(String, String)>, ip: Seq<char>) -> Option<Seq<char>>
    decreases entries.len(),
{
    if entries.len() == 0 {
        None
    } else if entries[0].0@ == ip {
        Some(entries[0].1@)
    } else {
        lookup(entries.drop_first(), ip)
    }
}

proof fn lemma_lookup_push(entries: Seq<(String, String)>, e: (String, String), ip: Seq<char>)
    requires
        lookup(entries, e.0@) is None,
    ensures
        lookup(entries.push(e), ip) == if ip == e.0@ {
            Some(e.1@)
        } else {
            lookup(entries, ip)
        },
    decreases entries.len(),
{
    if entries.len() > 0 {
        assert(entries.push(e).drop_first() =~= entries.drop_first().push(e));
        assert(entries.push(e)[0] == entries[0]);
        lemma_lookup_push(entries.drop_first(), e, ip);
    } else {
        assert(entries.push(e).drop_first() =~= Seq::<(String, String)>::empty());
        assert(entries.push(e)[0] == e);
        assert(entries.push(e).len() == 1);
        if ip != e.0@ {
            assert(lookup(entries.push(e), ip) == lookup(entries.push(e).drop_first(), ip));
        }
    }
}

proof fn lemma_lookup_update(
    entries: Seq<(String, String)>,
    i: int,
    e: (String, String),
    ip: Seq<char>,
)
    requires
        0 <= i < entries.len(),
        entries[i].0@ == e.0@,
        forall|j: int| 0 <= j < i ==> (#[trigger] entries[j]).0@ != e.0@,
    ensures
        lookup(entries.update(i, e), ip) == if ip == e.0@ {
            Some(e.1@)
        } else {
            lookup(entries, ip)
        },
    decreases entries.len(),
{
    if i > 0 {
        assert(entries.update(i, e).drop_first() =~= entries.drop_first().update(i - 1, e));
        assert forall|j: int| 0 <= j < i - 1 implies (#[trigger] entries.drop_first()[j]).0@ != e.0@ by {
            assert(entries.drop_first()[j] == entries[j + 1]);
        }
        assert(entries.update(i, e)[0] == entries[0]);
        lemma_lookup_update(entries.drop_first(), i - 1, e, ip);
    } else {
        assert(entries.update(i, e).drop_first() =~= entries.drop_first());
        assert(entries.update(i, e)[0] == e);
    }
}

impl View for PingLog {
    type V = Map<Seq<char>, Seq<char>>;

    closed spec fn view(&self) -> Map<Seq<char>, Seq<char>> {
        Map::new(
            |ip: Seq<char>| lookup(self.entries@, ip) is Some,
            |ip: Seq<char>| lookup(self.entries@, ip)->0,
        )
    }
}

impl PingLog {
    /// A log with no results.
    pub fn new() -> (log: PingLog)
        ensures
            log@ == Map::<Seq<char>, Seq<char>>::empty(),
    {
        let log = PingLog { entries: Vec::new() };
        proof {
            assert(log@ =~= Map::<Seq<char>, Seq<char>>::empty());
        }
        log
    }

    /// The position of the first entry for `ip`, if there is one.
    fn find(&self, ip: &str) -> (pos: Option<usize>)
        ensures
            match pos {
                Some(i) => {
                    &&& i < self.entries@.len()
                    &&& self.entries@[i as int].0@ == ip@
                    &&& forall|j: int| 0 <= j < i ==> (#[trigger] self.entries@[j]).0@ != ip@
                },
                None => forall|j: int|
                    0 <= j < self.entries@.len() ==> (#[trigger] self.entries@[j]).0@ != ip@,
            },
    {
        let mut i: usize = 0;
        while i < self.entries.len()
            invariant
                i <= self.entries@.len(),
                forall|j: int| 0 <= j < i ==> (#[trigger] self.entries@[j]).0@ != ip@,
            decreases self.entries.len() - i,
        {
            if str_eq(self.entries[i].0.as_str(), ip) {
                return Some(i);
            }
            i = i + 1;
        }
        None
    }

    proof fn lemma_lookup_absent(entries: Seq<(String, String)>, ip: Seq<char>)
        requires
            forall|j: int| 0 <= j < entries.len() ==> (#[trigger] entries[j]).0@ != ip,
        ensures
            lookup(entries, ip) is None,
        decreases entries.len(),
    {
        if entries.len() > 0 {
            assert forall|j: int| 0 <= j < entries.drop_first().len() implies (
            #[trigger] entries.drop_first()[j]).0@ != ip by {
                assert(entries.drop_first()[j] == entries[j + 1]);
            }
            Self::lemma_lookup_absent(entries.drop_first(), ip);
        }
    }

    proof fn lemma_lookup_found(entries: Seq<(String, String)>, ip: Seq<char>, i: int)
        requires
            0 <= i < entries.len(),
            entries[i].0@ == ip,
            forall|j: int| 0 <= j < i ==> (#[trigger] entries[j]).0@ != ip,
        ensures
            lookup(entries, ip) == Some(entries[i].1@),
        decreases i,
    {
        if i > 0 {
            assert forall|j: int| 0 <= j < i - 1 implies (
            #[trigger] entries.drop_first()[j]).0@ != ip by {
                assert(entries.drop_first()[j] == entries[j + 1]);
            }
            Self::lemma_lookup_found(entries.drop_first(), ip, i - 1);
        }
    }

    /// The result recorded for `ip`.
    pub fn get(&self, ip: &str) -> (out: Option<&String>)
        ensures
            match out {
                Some(o) => self@.contains_key(ip@) && self@[ip@] == o@,
                None => !self@.contains_key(ip@),
            },
    {
        match self.find(ip) {
            Some(i) => {
                proof {
                    Self::lemma_lookup_found(self.entries@, ip@, i as int);
                }
                Some(&self.entries[i].1)
            },
            None => {
                proof {
                    Self::lemma_lookup_absent(self.entries@, ip@);
                }
                None
            },
        }
    }

    /// Records `out` as the result for `ip`, in place of any earlier one.
    pub fn insert(&mut self, ip: String, out: String)
        ensures
            final(self)@ == old(self)@.insert(ip@, out@),
    {
        let ghost ipv = ip@;
        let ghost outv = out@;
        match self.find(ip.as_str()) {
            Some(i) => {
                let ghost before = self.entries@;
                self.entries.set(i, (ip, out));
                proof {
                    assert forall|k: Seq<char>| #![auto]
                        lookup(self.entries@, k) == if k == ipv {
                            Some(outv)
                        } else {
                            lookup(before, k)
                        } by {
                        lemma_lookup_update(before, i as int, self.entries@[i as int], k);
                    }
                    assert(self@ =~= old(self)@.insert(ipv, outv));
                }
            },
            None => {
                let ghost before = self.entries@;
                proof {
                    Self::lemma_lookup_absent(before, ipv);
                }
                self.entries.push((ip, out));
                proof {
                    assert forall|k: Seq<char>| #![auto]
                        lookup(self.entries@, k) == if k == ipv {
                            Some(outv)
                        } else {
                            lookup(before, k)
                        } by {
                        lemma_lookup_push(before, self.entries@.last(), k);
                    }
                    assert(self@ =~= old(self)@.insert(ipv, outv));
                }
            },
        }
    }
}

} // verus!
