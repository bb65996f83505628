//! Breadth-first resolution of needed library names against the search paths.
//!
//! The resolver decides; its caller does the file-system work. `step` hands out the next
//! candidate file to probe (or a record to report), `on_header` takes the candidate's
//! identification header, and `on_contents` takes the bytes of an accepted candidate.
use vstd::prelude::*;
use crate::config::texts;
use crate::ident::{ArchClass, architecture_class, ident_matches};
use crate::metadata::{Links, extract_dependencies, object_links};
use crate::paths::{candidate, candidate_path, relative_to_root, relative_path};

verus! {

/// Where a library name was found.
#[derive(Debug)]
pub enum Resolution {
    /// Found; the path is relative to the root.
    Found(String),
    /// Not found in any search path.
    Unresolved,
}

/// The outcome for one library name.
#[derive(Debug)]
pub struct Record {
    pub name: String,
    pub resolution: Resolution,
}

/// What the caller is to do next.
#[derive(Debug)]
pub enum Step {
    /// Read the identification header of this file, if it exists, and pass it to `on_header`.
    Probe(String),
    /// Report this record.
    Report(Record),
    /// Every queued name has its record.
    Finished,
}

/// Where the resolver stands in the probe of one candidate.
#[derive(Clone, Copy, Debug, PartialEq, Eq, Structural)]
pub enum Phase {
    /// No candidate is handed out.
    Idle,
    /// A candidate is handed out; its header is awaited.
    Probing,
    /// A candidate was accepted; its contents are awaited.
    Loading,
}

/// The library names that have a record, in discovery order.
pub open spec fn names(records: Seq<Record>) -> Seq<Seq<char>> {
    records.map_values(|r: Record| r.name@)
}

/// The needed names and runtime search paths in `contents`, when it parses as an ELF object.
pub open spec fn found_links(contents: Option<&[u8]>) -> Option<(Seq<Seq<char>>, Seq<Seq<char>>)> {
    match contents {
        Some(b) => match object_links(b@) {
            Some(Some(l)) => Some(l),
            _ => None,
        },
        None => None,
    }
}

/// Whether exactly one of `records` is for the name `n`.
pub open spec fn has_one_record(records: Seq<Record>, n: Seq<char>) -> bool {
    exists|i: int|
        0 <= i < records.len() && #[trigger] records[i].name@ == n && forall|j: int|
            0 <= j < records.len() && #[trigger] records[j].name@ == n ==> j == i
}

/// One resolution run: the search paths (append-only), the work queue with its head, the
/// index of the next search path to probe for the name at the head, and the records made.
pub struct Resolver {
    pub sysroot: String,
    pub search_paths: Vec<String>,
    pub root_class: ArchClass,
    pub queue: Vec<String>,
    pub head: usize,
    pub next_path: usize,
    pub phase: Phase,
    pub records: Vec<Record>,
}

impl Resolver {
    /// The name at the head of the queue.
    pub open spec fn current(&self) -> Seq<char> {
        self.queue@[self.head as int]@
    }

    /// Whether `n` has a record.
    pub open spec fn reported(&self, n: Seq<char>) -> bool {
        names(self.records@).contains(n)
    }

    /// The candidate file for the current name in the search path `next_path`.
    pub open spec fn probe_path(&self) -> Seq<char> {
        candidate_path(self.sysroot@, self.search_paths@[self.next_path as int]@, self.current())
    }

    pub open spec fn wf(&self) -> bool {
        &&& self.head <= self.queue@.len()
        &&& self.next_path <= self.search_paths@.len()
        &&& names(self.records@).no_duplicates()
        &&& forall|k: int| 0 <= k < self.head ==> self.reported(#[trigger] self.queue@[k]@)
        &&& forall|i: int|
            0 <= i < self.records@.len() ==> exists|k: int|
                0 <= k < self.head && #[trigger] self.queue@[k]@ == (#[trigger] self.records@[i]).name@
        &&& self.phase != Phase::Idle ==> {
            &&& self.head < self.queue@.len()
            &&& self.next_path < self.search_paths@.len()
            &&& !self.reported(self.current())
        }
    }

    /// The same run with the queue and the search paths untouched, and with the root,
    /// root class and records as in `old`.
    pub open spec fn same_frame(&self, old: &Resolver) -> bool {
        &&& self.sysroot == old.sysroot
        &&& self.search_paths == old.search_paths
        &&& self.root_class == old.root_class
        &&& self.queue == old.queue
    }

    /// Starts a run from the search paths of the configuration, the root binary's class,
    /// and the root binary's links: its needed names seed the queue, its runtime search
    /// paths follow those of the configuration.
    pub fn new(sysroot: String, search_paths: Vec<String>, root_class: ArchClass, root: Links) -> (r: Resolver)
        ensures
            r.wf(),
            r.sysroot == sysroot,
            r.search_paths@ == search_paths@ + root.search_paths@,
            r.root_class == root_class,
            r.queue@ == root.needed@,
            r.head == 0,
            r.next_path == 0,
            r.phase == Phase::Idle,
            r.records@.len() == 0,
    {
        let mut paths = search_paths;
        let mut extra = root.search_paths;
        paths.append(&mut extra);
        let r = Resolver {
            sysroot,
            search_paths: paths,
            root_class,
            queue: root.needed,
            head: 0,
            next_path: 0,
            phase: Phase::Idle,
            records: Vec::new(),
        };
        assert(names(r.records@) =~= Seq::<Seq<char>>::empty());
        r
    }

    /// Whether every name in queue positions `from..to` had a record in `old`.
    pub open spec fn skipped(&self, old: &Resolver, from: int, to: int) -> bool {
        forall|k: int| from <= k < to ==> old.reported(#[trigger] self.queue@[k]@)
    }

    /// Hands out the next thing to do. While a candidate is out, hands it out again.
    /// Otherwise passes over queued names that already have a record; then, for the name
    /// at the head, either hands out its candidate in the next search path, or, when every
    /// search path has been probed without a match, reports it unresolved; when the queue
    /// is drained, reports that the run is finished.
    pub fn step(&mut self) -> (r: Step)
        requires
            old(self).wf(),
        ensures
            final(self).wf(),
            final(self).same_frame(old(self)),
            old(self).head <= final(self).head,
            old(self).phase != Phase::Idle ==> *final(self) == *old(self) && (r matches Step::Probe(c)
                && c@ == old(self).probe_path()),
            old(self).phase == Phase::Idle ==> match r {
                Step::Finished => {
                    &&& final(self).head == final(self).queue@.len()
                    &&& final(self).records == old(self).records
                    &&& final(self).phase == Phase::Idle
                    &&& final(self).skipped(old(self), old(self).head as int, final(self).head as int)
                },
                Step::Probe(c) => {
                    &&& final(self).phase == Phase::Probing
                    &&& final(self).records == old(self).records
                    &&& final(self).skipped(old(self), old(self).head as int, final(self).head as int)
                    &&& final(self).next_path == if final(self).head == old(self).head {
                        old(self).next_path
                    } else {
                        0
                    }
                    &&& c@ == final(self).probe_path()
                },
                Step::Report(rec) => {
                    &&& final(self).phase == Phase::Idle
                    &&& final(self).next_path == 0
                    &&& old(self).head < final(self).head
                    &&& final(self).skipped(old(self), old(self).head as int, final(self).head - 1)
                    &&& rec.name@ == old(self).queue@[final(self).head - 1]@
                    &&& !old(self).reported(rec.name@)
                    &&& rec.resolution is Unresolved
                    &&& final(self).records@ == old(self).records@.push(rec)
                    &&& old(self).search_paths@.len() == if final(self).head - 1 == old(self).head {
                        old(self).next_path
                    } else {
                        0
                    }
                },
            },
    {
        if self.phase != Phase::Idle {
            let c = candidate(
                self.sysroot.as_str(),
                self.search_paths[self.next_path].as_str(),
                self.queue[self.head].as_str(),
            );
            return Step::Probe(c);
        }
        while self.head < self.queue.len() && self.has_record(&self.queue[self.head])
            invariant
                self.wf(),
                self.same_frame(old(self)),
                self.phase == Phase::Idle,
                self.records == old(self).records,
                old(self).head <= self.head <= self.queue@.len(),
                self.skipped(old(self), old(self).head as int, self.head as int),
                self.next_path == if self.head == old(self).head {
                    old(self).next_path
                } else {
                    0
                },
            decreases self.queue@.len() - self.head,
        {
            self.head = self.head + 1;
            self.next_path = 0;
        }
        if self.head == self.queue.len() {
            return Step::Finished;
        }
        if self.next_path == self.search_paths.len() {
            let name = self.queue[self.head].clone();
            let rec = Record { name: name.clone(), resolution: Resolution::Unresolved };
            let ghost before = self.records@;
            self.records.push(Record { name, resolution: Resolution::Unresolved });
            proof {
                assert(names(self.records@) =~= names(before).push(rec.name@));
                assert forall|k: int| 0 <= k <= self.head implies self.reported(#[trigger] self.queue@[k]@) by {
                    if k < self.head {
                        assert(names(before).contains(self.queue@[k]@));
                        let j = choose|j: int| 0 <= j < names(before).len() && names(before)[j] == self.queue@[k]@;
                        assert(names(self.records@)[j] == self.queue@[k]@);
                    } else {
                        assert(names(self.records@)[before.len() as int] == self.queue@[k]@);
                    }
                }
            }
            self.head = self.head + 1;
            self.next_path = 0;
            return Step::Report(rec);
        }
        self.phase = Phase::Probing;
        let c = candidate(
            self.sysroot.as_str(),
            self.search_paths[self.next_path].as_str(),
            self.queue[self.head].as_str(),
        );
        Step::Probe(c)
    }

    /// Takes the identification header of the candidate handed out, or `None` when the
    /// file does not exist or cannot be read. The candidate is accepted iff its header
    /// gives the root's class; otherwise the next search path is to be probed.
    pub fn on_header(&mut self, header: Option<&[u8]>) -> (accepted: bool)
        requires
            old(self).wf(),
        ensures
            final(self).wf(),
            old(self).phase != Phase::Probing ==> !accepted && *final(self) == *old(self),
            old(self).phase == Phase::Probing ==> accepted == (header matches Some(h) && ident_matches(
                h@,
                Ok(old(self).root_class),
            )),
            old(self).phase == Phase::Probing && accepted ==> *final(self) == (Resolver {
                phase: Phase::Loading,
                ..*old(self)
            }),
            old(self).phase == Phase::Probing && !accepted ==> *final(self) == (Resolver {
                phase: Phase::Idle,
                next_path: (old(self).next_path + 1) as usize,
                ..*old(self)
            }),
    {
        if self.phase != Phase::Probing {
            return false;
        }
        let ghost before = *self;
        let matches_root = match header {
            Some(h) => match architecture_class(h) {
                Ok(c) => c == self.root_class,
                Err(_) => false,
            },
            None => false,
        };
        if matches_root {
            self.phase = Phase::Loading;
        } else {
            let paths_len = self.search_paths.len();
            assert(self.next_path < paths_len);
            self.next_path = self.next_path + 1;
            self.phase = Phase::Idle;
        }
        proof {
            assert(names(self.records@) == names(before.records@));
            assert forall|k: int| 0 <= k < self.head implies self.reported(#[trigger] self.queue@[k]@) by {
                assert(before.reported(before.queue@[k]@));
            }
            assert forall|i: int| 0 <= i < self.records@.len() implies exists|k: int|
                0 <= k < self.head && #[trigger] self.queue@[k]@ == (#[trigger] self.records@[i]).name@ by {
                let k = choose|k: int| 0 <= k < before.head && #[trigger] before.queue@[k]@ == (#[trigger] before.records@[i]).name@;
                assert(self.queue@[k]@ == self.records@[i].name@);
            }
        }
        matches_root
    }

    /// Takes the contents of the accepted candidate, or `None` when they cannot be read.
    /// Records the current name as found at the candidate's path relative to the root and
    /// moves on to the next queued name. When the contents parse as an ELF object, its
    /// needed names join the end of the queue and its runtime search paths join the end of
    /// the search paths; otherwise the library is taken as having no dependencies.
    pub fn on_contents(&mut self, contents: Option<&[u8]>) -> (r: Option<Record>)
        requires
            old(self).wf(),
        ensures
            final(self).wf(),
            old(self).phase != Phase::Loading ==> r is None && *final(self) == *old(self),
            old(self).phase == Phase::Loading ==> {
                &&& r matches Some(rec)
                &&& rec.name@ == old(self).current()
                &&& rec.resolution matches Resolution::Found(p)
                    && p@ == relative_path(old(self).search_paths@[old(self).next_path as int]@, old(self).current())
                &&& final(self).records@ == old(self).records@.push(rec)
                &&& final(self).head == old(self).head + 1
                &&& final(self).next_path == 0
                &&& final(self).phase == Phase::Idle
                &&& final(self).sysroot == old(self).sysroot
                &&& final(self).root_class == old(self).root_class
                &&& match found_links(contents) {
                    Some((n, p)) => {
                        &&& texts(final(self).queue@) == texts(old(self).queue@) + n
                        &&& texts(final(self).search_paths@) == texts(old(self).search_paths@) + p
                    },
                    None => {
                        &&& final(self).queue == old(self).queue
                        &&& final(self).search_paths == old(self).search_paths
                    },
                }
            },
    {
        if self.phase != Phase::Loading {
            return None;
        }
        let ghost start = *self;
        let queue_len = self.queue.len();
        assert(self.head < queue_len);
        let name = self.queue[self.head].clone();
        let rel = relative_to_root(self.search_paths[self.next_path].as_str(), name.as_str());
        let rec = Record { name: name.clone(), resolution: Resolution::Found(rel.clone()) };
        let ghost before = self.records@;
        self.records.push(Record { name, resolution: Resolution::Found(rel) });
        proof {
            assert(names(self.records@) =~= names(before).push(rec.name@));
            assert forall|k: int| 0 <= k <= self.head implies self.reported(#[trigger] self.queue@[k]@) by {
                if k < self.head {
                    assert(names(before).contains(self.queue@[k]@));
                    let j = choose|j: int| 0 <= j < names(before).len() && names(before)[j] == self.queue@[k]@;
                    assert(names(self.records@)[j] == self.queue@[k]@);
                } else {
                    assert(names(self.records@)[before.len() as int] == self.queue@[k]@);
                }
            }
            assert forall|i: int| 0 <= i < self.records@.len() implies exists|k: int|
                0 <= k < self.head + 1 && #[trigger] self.queue@[k]@ == (#[trigger] self.records@[i]).name@ by {
                if i < before.len() {
                    let k = choose|k: int| 0 <= k < start.head && #[trigger] start.queue@[k]@ == (#[trigger] start.records@[i]).name@;
                    assert(self.queue@[k]@ == self.records@[i].name@);
                } else {
                    assert(self.queue@[self.head as int]@ == self.records@[i].name@);
                }
            }
        }
        self.head = self.head + 1;
        self.next_path = 0;
        self.phase = Phase::Idle;
        if let Some(bytes) = contents {
            if let Ok(links) = extract_dependencies(bytes) {
                let ghost mid = *self;
                let ghost q0 = self.queue@;
                let ghost p0 = self.search_paths@;
                let mut needed = links.needed;
                let mut extra = links.search_paths;
                let ghost n0 = needed@;
                let ghost e0 = extra@;
                self.queue.append(&mut needed);
                self.search_paths.append(&mut extra);
                proof {
                    assert(texts(self.queue@) =~= texts(q0) + texts(n0));
                    assert(texts(self.search_paths@) =~= texts(p0) + texts(e0));
                    assert forall|k: int| 0 <= k < self.head implies self.reported(#[trigger] self.queue@[k]@) by {
                        assert(self.queue@[k] == q0[k]);
                    }
                    assert forall|i: int| 0 <= i < self.records@.len() implies exists|k: int|
                        0 <= k < self.head && #[trigger] self.queue@[k]@ == (#[trigger] self.records@[i]).name@ by {
                        let k = choose|k: int| 0 <= k < mid.head && #[trigger] mid.queue@[k]@ == (#[trigger] mid.records@[i]).name@;
                        assert(self.queue@[k] == q0[k]);
                    }
                }
            }
        }
        Some(rec)
    }

    /// Once the queue is drained, every name that was ever queued has exactly one record,
    /// and every record is for a queued name.
    pub proof fn lemma_each_name_once(&self)
        requires
            self.wf(),
            self.head == self.queue@.len(),
        ensures
            forall|k: int| 0 <= k < self.queue@.len() ==> has_one_record(self.records@, #[trigger] self.queue@[k]@),
            forall|i: int| 0 <= i < self.records@.len() ==> texts(self.queue@).contains(#[trigger] self.records@[i].name@),
    {
        let ns = names(self.records@);
        assert forall|i: int| 0 <= i < self.records@.len() implies texts(self.queue@).contains(#[trigger] self.records@[i].name@) by {
            let k = choose|k: int| 0 <= k < self.head && #[trigger] self.queue@[k]@ == (#[trigger] self.records@[i]).name@;
            assert(texts(self.queue@)[k] == self.records@[i].name@);
        }
        assert forall|k: int| 0 <= k < self.queue@.len() implies has_one_record(self.records@, #[trigger] self.queue@[k]@) by {
            assert(self.reported(self.queue@[k]@));
            let i = choose|i: int| 0 <= i < ns.len() && ns[i] == self.queue@[k]@;
            assert(self.records@[i].name@ == ns[i]);
            assert forall|j: int|
                0 <= j < self.records@.len() && self.records@[j].name@ == self.queue@[k]@ implies j == i by {
                assert(ns[j] == self.records@[j].name@);
            }
        }
    }

    /// Whether `name` already has a record.
    fn has_record(&self, name: &String) -> (r: bool)
        ensures
            r == self.reported(name@),
    {
        let mut i: usize = 0;
        while i < self.records.len()
            invariant
                i <= self.records@.len(),
                forall|k: int| 0 <= k < i ==> self.records@[k].name@ != name@,
            decreases self.records@.len() - i,
        {
            if self.records[i].name == *name {
                assert(names(self.records@)[i as int] == name@);
                return true;
            }
            i = i + 1;
        }
        proof {
            if self.reported(name@) {
                let k = choose|k: int| 0 <= k < names(self.records@).len() && names(self.records@)[k] == name@;
                assert(self.records@[k].name@ == name@);
            }
        }
        false
    }
}

} // verus!
