//! The resolver: merges ingested metadata documents, builds the type catalog,
//! attaches locations and methods, and produces the resolved data handed to
//! rendering. Mappings are ordered pairs keyed by name; ingesting a document
//! whose key already exists overwrites the value in place, so the collision
//! policy is deliberately "last ingested wins".

use vstd::prelude::*;

use crate::error::{Error, ErrorV};
use crate::json;
use crate::json::{loc_filename, loc_line, loc_wf, DefinitionV};

verus! {

/// The index of the first pair in `m` whose key equals `k`.
pub open spec fn spec_key_idx<V>(m: Seq<(Seq<char>, V)>, k: Seq<char>) -> Option<int>
    decreases m.len(),
{
    if m.len() == 0 {
        None
    } else if m[0].0 == k {
        Some(0)
    } else {
        match spec_key_idx(m.skip(1), k) {
            Some(i) => Some(i + 1),
            None => None,
        }
    }
}

/// The value of the first pair in `m` whose key equals `k`, if any.
pub open spec fn spec_lookup<V>(m: Seq<(Seq<char>, V)>, k: Seq<char>) -> Option<V> {
    match spec_key_idx(m, k) {
        Some(i) => Some(m[i].1),
        None => None,
    }
}

/// What `spec_key_idx` finds is the first match.
pub proof fn lemma_key_idx<V>(m: Seq<(Seq<char>, V)>, k: Seq<char>)
    ensures
        match spec_key_idx(m, k) {
            Some(i) => {
                &&& 0 <= i < m.len()
                &&& m[i].0 == k
                &&& forall|j: int| 0 <= j < i ==> (#[trigger] m[j]).0 != k
            },
            None => forall|j: int| 0 <= j < m.len() ==> (#[trigger] m[j]).0 != k,
        },
    decreases m.len(),
{
    if m.len() > 0 && m[0].0 != k {
        lemma_key_idx(m.skip(1), k);
        assert(forall|j: int| 1 <= j < m.len() ==> #[trigger] m[j] == m.skip(1)[j - 1]);
    }
}

/// `m` with `k` bound to `v`: overwritten in place when the key exists,
/// appended otherwise.
pub open spec fn spec_upsert<V>(m: Seq<(Seq<char>, V)>, k: Seq<char>, v: V) -> Seq<
    (Seq<char>, V),
> {
    match spec_key_idx(m, k) {
        Some(i) => m.update(i, (k, v)),
        None => m.push((k, v)),
    }
}

/// `m` after upserting every pair of `entries`, in order.
pub open spec fn spec_merge<V>(m: Seq<(Seq<char>, V)>, entries: Seq<(Seq<char>, V)>) -> Seq<
    (Seq<char>, V),
>
    decreases entries.len(),
{
    if entries.len() == 0 {
        m
    } else {
        spec_upsert(
            spec_merge(m, entries.drop_last()),
            entries.last().0,
            entries.last().1,
        )
    }
}

/// Looks up `k` in an ordered pair list.
fn map_get<'a, T: DeepView>(m: &'a Vec<(String, T)>, k: &str) -> (r: Option<&'a T>)
    ensures
        match r {
            Some(v) => spec_lookup(m.deep_view(), k@) == Some(v.deep_view()),
            None => spec_lookup(m.deep_view(), k@) is None,
        },
{
    let ghost mv = m.deep_view();
    proof {
        lemma_key_idx(mv, k@);
    }
    let mut i: usize = 0;
    while i < m.len()
        invariant
            0 <= i <= m.len(),
            mv == m.deep_view(),
            mv.len() == m.len(),
            forall|j: int| 0 <= j < i ==> (#[trigger] mv[j]).0 != k@,
            match spec_key_idx(mv, k@) {
                Some(x) => {
                    &&& 0 <= x < mv.len()
                    &&& mv[x].0 == k@
                    &&& forall|j: int| 0 <= j < x ==> (#[trigger] mv[j]).0 != k@
                },
                None => forall|j: int| 0 <= j < mv.len() ==> (#[trigger] mv[j]).0 != k@,
            },
        decreases m.len() - i,
    {
        proof {
            assert(m[i as int].deep_view() == mv[i as int]);
        }
        if crate::text::str_eq(m[i].0.as_str(), k) {
            proof {
                if spec_key_idx(mv, k@) is None {
                    assert(false);
                }
                if spec_key_idx(mv, k@)->Some_0 != i as int {
                    assert(false);
                }
            }
            return Some(&m[i].1);
        }
        i = i + 1;
    }
    None
}

/// Upserts one pair into an ordered pair list.
fn map_put<T: DeepView>(m: &mut Vec<(String, T)>, k: String, v: T)
    ensures
        final(m).deep_view() == spec_upsert(old(m).deep_view(), k@, v.deep_view()),
{
    let ghost mv = m.deep_view();
    let ghost vv = v.deep_view();
    proof {
        lemma_key_idx(mv, k@);
    }
    let mut i: usize = 0;
    while i < m.len()
        invariant
            0 <= i <= m.len(),
            m@ == old(m)@,
            mv == m.deep_view(),
            vv == v.deep_view(),
            mv.len() == m.len(),
            forall|j: int| 0 <= j < i ==> (#[trigger] mv[j]).0 != k@,
            match spec_key_idx(mv, k@) {
                Some(x) => {
                    &&& 0 <= x < mv.len()
                    &&& mv[x].0 == k@
                    &&& forall|j: int| 0 <= j < x ==> (#[trigger] mv[j]).0 != k@
                },
                None => forall|j: int| 0 <= j < mv.len() ==> (#[trigger] mv[j]).0 != k@,
            },
        decreases m.len() - i,
    {
        proof {
            assert(m[i as int].deep_view() == mv[i as int]);
        }
        if crate::text::str_eq(m[i].0.as_str(), k.as_str()) {
            proof {
                if spec_key_idx(mv, k@) is None {
                    assert(false);
                }
                if spec_key_idx(mv, k@)->Some_0 != i as int {
                    assert(false);
                }
            }
            let ghost kv = k@;
            let _ = m.remove(i);
            m.insert(i, (k, v));
            proof {
                assert(m@.len() == mv.len());
                assert(m@[i as int].deep_view() == (kv, vv));
                assert(forall|j: int|
                    0 <= j < mv.len() && j != i ==> (#[trigger] m@[j]).deep_view() == mv[j]);
                assert(m.deep_view() =~= mv.update(i as int, (kv, vv)));
                assert(spec_key_idx(mv, kv) == Some(i as int));
                assert(spec_upsert(mv, kv, vv) == mv.update(i as int, (kv, vv)));
            }
            return ;
        }
        i = i + 1;
    }
    m.push((k, v));
    proof {
        assert(m.deep_view() =~~= mv.push((k@, vv)));
    }
}

/// The ingested document state of one generation run.
#[derive(Debug)]
pub struct Parser {
    typedefs: Vec<(String, String)>,
    defs: Vec<(String, json::Definition)>,
    structs: Vec<(String, json::Struct)>,
    enums: Vec<(String, json::Enum)>,
    locations: Vec<(String, json::Location)>,
}

/// The mathematical value of the ingested document state.
pub struct ParserV {
    pub typedefs: Seq<(Seq<char>, Seq<char>)>,
    pub defs: Seq<(Seq<char>, DefinitionV)>,
    pub structs: Seq<(Seq<char>, Seq<json::FieldV>)>,
    pub enums: Seq<(Seq<char>, Seq<json::EnumValueV>)>,
    pub locations: Seq<(Seq<char>, Seq<char>)>,
}

impl View for Parser {
    type V = ParserV;

    closed spec fn view(&self) -> ParserV {
        ParserV {
            typedefs: self.typedefs.deep_view(),
            defs: self.defs.deep_view(),
            structs: self.structs.deep_view(),
            enums: self.enums.deep_view(),
            locations: self.locations.deep_view(),
        }
    }
}

/// Whether a definition record's location string, if present, is well formed.
pub open spec fn def_loc_ok(d: DefinitionV) -> bool {
    d.location is Some ==> loc_wf(d.location->Some_0)
}

/// Every location string the parser holds is well formed: ingestion rejects
/// a document with a malformed one before storing anything from it.
pub open spec fn parser_wf(p: ParserV) -> bool {
    &&& forall|i: int| 0 <= i < p.locations.len() ==> loc_wf((#[trigger] p.locations[i]).1)
    &&& forall|i: int| 0 <= i < p.defs.len() ==> def_loc_ok((#[trigger] p.defs[i]).1)
}

impl Parser {
    /// Whether every stored location string is well formed.
    pub open spec fn wf(&self) -> bool {
        parser_wf(self@)
    }

    /// Constructs a new parser with no documents ingested.
    pub fn new() -> (r: Self)
        ensures
            r@ == (ParserV {
                typedefs: Seq::empty(),
                defs: Seq::empty(),
                structs: Seq::empty(),
                enums: Seq::empty(),
                locations: Seq::empty(),
            }),
            r.wf(),
    {
        let r = Parser {
            typedefs: Vec::new(),
            defs: Vec::new(),
            structs: Vec::new(),
            enums: Vec::new(),
            locations: Vec::new(),
        };
        proof {
            assert(r.typedefs.deep_view() =~= Seq::<(Seq<char>, Seq<char>)>::empty());
            assert(r.defs.deep_view() =~= Seq::<(Seq<char>, DefinitionV)>::empty());
            assert(r.structs.deep_view() =~= Seq::<(Seq<char>, Seq<json::FieldV>)>::empty());
            assert(r.enums.deep_view() =~= Seq::<(Seq<char>, Seq<json::EnumValueV>)>::empty());
            assert(r.locations.deep_view() =~= Seq::<(Seq<char>, Seq<char>)>::empty());
        }
        r
    }

    /// Ingests one typedefs document, appending its entries.
    pub fn add_json_typedefs(&mut self, typedefs: json::Typedefs) -> (r: Result<
        (),
        crate::error::Error,
    >)
        ensures
            r is Ok,
            final(self)@ == (ParserV {
                typedefs: old(self)@.typedefs + typedefs@,
                ..old(self)@
            }),
            old(self).wf() ==> final(self).wf(),
    {
        let ghost tv = typedefs@;
        let mut entries = typedefs.0;
        self.typedefs.append(&mut entries);
        proof {
            assert(self.typedefs.deep_view() =~~= old(self)@.typedefs + tv);
        }
        Ok(())
    }

    /// Ingests one structs-and-enums document: rejects it whole if any
    /// location string is malformed, else merges its three mappings with
    /// last-write-wins on key collisions.
    pub fn add_json_structs_and_enums(&mut self, se: json::StructsAndEnums) -> (r: Result<
        (),
        crate::error::Error,
    >)
        ensures
            match r {
                Ok(_) => {
                    &&& final(self)@ == (ParserV {
                        structs: spec_merge(old(self)@.structs, se.structs.deep_view()),
                        enums: spec_merge(old(self)@.enums, se.enums.deep_view()),
                        locations: spec_merge(old(self)@.locations, se.locations.deep_view()),
                        ..old(self)@
                    })
                    &&& forall|i: int|
                        0 <= i < se.locations.deep_view().len() ==> loc_wf(
                            (#[trigger] se.locations.deep_view()[i]).1,
                        )
                    &&& old(self).wf() ==> final(self).wf()
                },
                Err(e) => {
                    &&& final(self)@ == old(self)@
                    &&& exists|i: int|
                        0 <= i < se.locations.deep_view().len() && !loc_wf(
                            (#[trigger] se.locations.deep_view()[i]).1,
                        ) && e@ == ErrorV::MalformedMetadata(se.locations.deep_view()[i].1)
                },
            },
    {
        let ghost locs0 = se.locations.deep_view();
        let ghost enums0 = se.enums.deep_view();
        let ghost structs0 = se.structs.deep_view();
        let mut i: usize = 0;
        while i < se.locations.len()
            invariant
                0 <= i <= se.locations.len(),
                self == old(self),
                locs0 == se.locations.deep_view(),
                locs0.len() == se.locations.len(),
                forall|j: int|
                    0 <= j < i ==> loc_wf((#[trigger] se.locations.deep_view()[j]).1),
            decreases se.locations.len() - i,
        {
            proof {
                assert(se.locations[i as int].deep_view() == se.locations.deep_view()[i as int]);
            }
            if !se.locations[i].1.is_well_formed() {
                return Err(
                    Error::MalformedMetadata(se.locations[i].1.text().to_owned()),
                );
            }
            i = i + 1;
        }
        let json::StructsAndEnums { enums, locations, structs } = se;
        let mut rest = locations;
        while rest.len() > 0
            invariant
                rest@.len() <= locs0.len(),
                rest.deep_view() == locs0.skip(locs0.len() - rest@.len()),
                self.locations.deep_view() == spec_merge(
                    old(self)@.locations,
                    locs0.take(locs0.len() - rest@.len()),
                ),
                self.typedefs == old(self).typedefs,
                self.defs == old(self).defs,
                self.structs == old(self).structs,
                self.enums == old(self).enums,
            decreases rest@.len(),
        {
            let ghost p = locs0.len() - rest@.len();
            let ghost head = rest@[0];
            let ghost rv = rest@;
            proof {
                assert(head.deep_view() == rest.deep_view()[0]);
                assert(head.deep_view() == locs0[p]);
            }
            let (key, val) = rest.remove(0);
            proof {
                assert(key == head.0 && val == head.1);
                assert((key@, val.deep_view()) == head.deep_view());
                assert(rest@ =~= rv.skip(1));
                assert(forall|j: int|
                    0 <= j < rest@.len() ==> (#[trigger] rest@[j]).deep_view() == locs0.skip(p)[j
                        + 1]);
                assert(rest.deep_view() =~~= locs0.skip(p + 1));
            }
            map_put(&mut self.locations, key, val);
            proof {
                assert(locs0.take(p + 1).drop_last() =~= locs0.take(p));
                assert(locs0.take(p + 1).last() == locs0[p]);
            }
        }
        proof {
            assert(locs0.take(locs0.len() as int) =~= locs0);
        }
        let mut rest = enums;
        while rest.len() > 0
            invariant
                rest@.len() <= enums0.len(),
                rest.deep_view() == enums0.skip(enums0.len() - rest@.len()),
                self.enums.deep_view() == spec_merge(
                    old(self)@.enums,
                    enums0.take(enums0.len() - rest@.len()),
                ),
                self.locations.deep_view() == spec_merge(old(self)@.locations, locs0),
                self.typedefs == old(self).typedefs,
                self.defs == old(self).defs,
                self.structs == old(self).structs,
            decreases rest@.len(),
        {
            let ghost p = enums0.len() - rest@.len();
            let ghost head = rest@[0];
            let ghost rv = rest@;
            proof {
                assert(head.deep_view() == rest.deep_view()[0]);
                assert(head.deep_view() == enums0[p]);
            }
            let (key, val) = rest.remove(0);
            proof {
                assert(key == head.0 && val == head.1);
                assert((key@, val.deep_view()) == head.deep_view());
                assert(rest@ =~= rv.skip(1));
                assert(forall|j: int|
                    0 <= j < rest@.len() ==> (#[trigger] rest@[j]).deep_view() == enums0.skip(p)[j
                        + 1]);
                assert(rest.deep_view() =~~= enums0.skip(p + 1));
            }
            map_put(&mut self.enums, key, val);
            proof {
                assert(enums0.take(p + 1).drop_last() =~= enums0.take(p));
                assert(enums0.take(p + 1).last() == enums0[p]);
            }
        }
        proof {
            assert(enums0.take(enums0.len() as int) =~= enums0);
        }
        let mut rest = structs;
        while rest.len() > 0
            invariant
                rest@.len() <= structs0.len(),
                rest.deep_view() == structs0.skip(structs0.len() - rest@.len()),
                self.structs.deep_view() == spec_merge(
                    old(self)@.structs,
                    structs0.take(structs0.len() - rest@.len()),
                ),
                self.locations.deep_view() == spec_merge(old(self)@.locations, locs0),
                self.enums.deep_view() == spec_merge(old(self)@.enums, enums0),
                self.typedefs == old(self).typedefs,
                self.defs == old(self).defs,
            decreases rest@.len(),
        {
            let ghost p = structs0.len() - rest@.len();
            let ghost head = rest@[0];
            let ghost rv = rest@;
            proof {
                assert(head.deep_view() == rest.deep_view()[0]);
                assert(head.deep_view() == structs0[p]);
            }
            let (key, val) = rest.remove(0);
            proof {
                assert(key == head.0 && val == head.1);
                assert((key@, val.deep_view()) == head.deep_view());
                assert(rest@ =~= rv.skip(1));
                assert(forall|j: int|
                    0 <= j < rest@.len() ==> (#[trigger] rest@[j]).deep_view() == structs0.skip(p)[j
                        + 1]);
                assert(rest.deep_view() =~~= structs0.skip(p + 1));
            }
            map_put(&mut self.structs, key, val);
            proof {
                assert(structs0.take(p + 1).drop_last() =~= structs0.take(p));
                assert(structs0.take(p + 1).last() == structs0[p]);
            }
        }
        proof {
            assert(structs0.take(structs0.len() as int) =~= structs0);
            assert(self.typedefs.deep_view() == old(self)@.typedefs);
            assert(self.defs.deep_view() == old(self)@.defs);
            assert(self.structs.deep_view() == spec_merge(old(self)@.structs, structs0));
            assert(self.enums.deep_view() == spec_merge(old(self)@.enums, enums0));
            assert(self.locations.deep_view() == spec_merge(old(self)@.locations, locs0));
            assert(self@ == (ParserV {
                structs: spec_merge(old(self)@.structs, structs0),
                enums: spec_merge(old(self)@.enums, enums0),
                locations: spec_merge(old(self)@.locations, locs0),
                ..old(self)@
            }));
            if old(self).wf() {
                lemma_merge_loc_wf(old(self)@.locations, locs0);
            }
        }
        Ok(())
    }

    /// Ingests one definitions document: rejects it whole if any record's
    /// location string is malformed, else appends every record, keyed by the
    /// document's raw definition name, in document order.
    pub fn add_json_definitions(&mut self, defs: json::Definitions) -> (r: Result<(), Error>)
        ensures
            match r {
                Ok(_) => {
                    &&& final(self)@ == (ParserV {
                        defs: old(self)@.defs + defs_flat(defs@),
                        ..old(self)@
                    })
                    &&& forall|i: int|
                        0 <= i < defs_flat(defs@).len() ==> def_loc_ok(
                            (#[trigger] defs_flat(defs@)[i]).1,
                        )
                    &&& old(self).wf() ==> final(self).wf()
                },
                Err(e) => {
                    &&& final(self)@ == old(self)@
                    &&& exists|k: int, j: int|
                        0 <= k < defs@.len() && 0 <= j < (#[trigger] defs@[k]).1.len() && !def_loc_ok(
                            #[trigger] defs@[k].1[j],
                        ) && e@ == ErrorV::MalformedMetadata(defs@[k].1[j].location->Some_0)
                },
            },
    {
        let ghost dv = defs@;
        let mut flat: Vec<(String, json::Definition)> = Vec::new();
        let mut docs = defs.0;
        proof {
            assert(flat.deep_view() =~= defs_flat(dv.take(0)));
        }
        while docs.len() > 0
            invariant
                self == old(self),
                dv == defs@,
                docs@.len() <= dv.len(),
                docs.deep_view() == dv.skip(dv.len() - docs@.len()),
                flat.deep_view() == defs_flat(dv.take(dv.len() - docs@.len())),
                forall|i: int|
                    0 <= i < flat.deep_view().len() ==> def_loc_ok(
                        (#[trigger] flat.deep_view()[i]).1,
                    ),
            decreases docs@.len(),
        {
            let ghost k = dv.len() - docs@.len();
            let ghost head = docs@[0];
            let ghost docsv = docs@;
            proof {
                assert(head.deep_view() == docs.deep_view()[0]);
                assert(head.deep_view() == dv[k]);
            }
            let (raw, mut recs) = docs.remove(0);
            proof {
                assert(raw == head.0 && recs == head.1);
                assert((raw@, recs.deep_view()) == dv[k]);
                assert(docs@ =~= docsv.skip(1));
                assert(forall|j: int|
                    0 <= j < docs@.len() ==> (#[trigger] docs@[j]).deep_view() == dv.skip(k)[j
                        + 1]);
                assert(docs.deep_view() =~~= dv.skip(k + 1));
            }
            let ghost recs0 = recs.deep_view();
            while recs.len() > 0
                invariant
                    self == old(self),
                    dv == defs@,
                    recs@.len() <= recs0.len(),
                    raw@ == dv[k].0,
                    recs0 == dv[k].1,
                    0 <= k < dv.len(),
                    recs.deep_view() == recs0.skip(recs0.len() - recs@.len()),
                    flat.deep_view() == defs_flat(dv.take(k)) + doc_pairs(dv[k]).take(
                        recs0.len() - recs@.len(),
                    ),
                    forall|i: int|
                        0 <= i < flat.deep_view().len() ==> def_loc_ok(
                            (#[trigger] flat.deep_view()[i]).1,
                        ),
                decreases recs@.len(),
            {
                let ghost j = recs0.len() - recs@.len();
                let ghost rhead = recs@[0];
                let ghost recsv = recs@;
                proof {
                    assert(rhead.deep_view() == recs.deep_view()[0]);
                    assert(rhead.deep_view() == recs0[j]);
                }
                let d = recs.remove(0);
                proof {
                    assert(d == rhead);
                    assert(d.deep_view() == recs0[j]);
                    assert(recs@ =~= recsv.skip(1));
                    assert(forall|x: int|
                        0 <= x < recs@.len() ==> (#[trigger] recs@[x]).deep_view() == recs0.skip(
                            j,
                        )[x + 1]);
                    assert(recs.deep_view() =~~= recs0.skip(j + 1));
                }
                let ok = match &d.location {
                    Some(l) => l.is_well_formed(),
                    None => true,
                };
                if !ok {
                    match &d.location {
                        Some(l) => {
                            let err = Error::MalformedMetadata(l.text().to_owned());
                            proof {
                                assert(dv[k].1[j].location == Some(l@));
                                assert(!def_loc_ok(dv[k].1[j]));
                                assert(0 <= j < dv[k].1.len());
                                assert(err@ == ErrorV::MalformedMetadata(
                                    dv[k].1[j].location->Some_0,
                                ));
                            }
                            return Err(err);
                        },
                        None => {
                            proof {
                                assert(false);
                            }
                        },
                    }
                }
                let ghost flat0 = flat.deep_view();
                flat.push((raw.clone(), d));
                proof {
                    assert(flat@.len() == flat0.len() + 1);
                    assert(flat@[flat0.len() as int].deep_view() == (raw@, recs0[j]));
                    assert(doc_pairs(dv[k]).take(j + 1) =~= doc_pairs(dv[k]).take(j).push(
                        (dv[k].0, recs0[j]),
                    ));
                    assert(flat.deep_view() =~~= flat0.push((raw@, recs0[j])));
                    assert(flat.deep_view() =~~= defs_flat(dv.take(k)) + doc_pairs(dv[k]).take(
                        j + 1,
                    ));
                }
            }
            proof {
                assert(doc_pairs(dv[k]).take(recs0.len() as int) =~= doc_pairs(dv[k]));
                assert(dv.take(k + 1).drop_last() =~= dv.take(k));
                assert(dv.take(k + 1).last() == dv[k]);
                assert(flat.deep_view() =~= defs_flat(dv.take(k + 1)));
            }
        }
        proof {
            assert(dv.take(dv.len() as int) =~= dv);
        }
        let ghost flat_final = flat.deep_view();
        self.defs.append(&mut flat);
        proof {
            assert(self.defs.deep_view() =~~= old(self)@.defs + flat_final);
        }
        Ok(())
    }

    /// Resolves the ingested documents into the final data: builds the type
    /// catalog (structs, enums, then the fixed C primitives), attaches
    /// locations by name-equality join, builds every non-templated callable,
    /// and attaches each method to its owning struct. Fails with
    /// `UnresolvedOwner` when a method's owner matches no type, and with
    /// `Unsupported` when it matches an enum or a C primitive.
    pub fn parse(&self) -> (r: Result<Data, Error>)
        requires
            self.wf(),
        ensures
            match r {
                Ok(d) => spec_resolve(self@) == Ok::<DataV, ErrorV>(d@),
                Err(e) => spec_resolve(self@) == Err::<DataV, ErrorV>(e@),
            },
    {
        let ghost defsv = self@.defs;
        let ghost locsv = self@.locations;
        let mut methods: Vec<(String, crate::function::Function)> = Vec::new();
        let mut functions: Vec<crate::function::Function> = Vec::new();
        let mut i: usize = 0;
        proof {
            assert(methods.deep_view() =~= spec_methods(defsv.take(0)));
            assert(functions.deep_view() =~= spec_functions(defsv.take(0)));
        }
        while i < self.defs.len()
            invariant
                0 <= i <= self.defs.len(),
                self.wf(),
                defsv == self@.defs,
                defsv.len() == self.defs.len(),
                methods.deep_view() == spec_methods(defsv.take(i as int)),
                functions.deep_view() == spec_functions(defsv.take(i as int)),
            decreases self.defs.len() - i,
        {
            proof {
                assert(self.defs[i as int].deep_view() == defsv[i as int]);
                assert(defsv.take(i + 1).drop_last() =~= defsv.take(i as int));
                assert(defsv.take(i + 1).last() == defsv[i as int]);
            }
            let raw = &self.defs[i].0;
            let d = &self.defs[i].1;
            if !d.templated {
                proof {
                    assert(def_loc_ok(defsv[i as int].1));
                }
                let f = build_callable(raw, d);
                if d.struct_name.as_str().is_empty() {
                    functions.push(f);
                    proof {
                        assert(functions.deep_view() =~~= spec_functions(defsv.take(i + 1)));
                        assert(methods.deep_view() =~~= spec_methods(defsv.take(i + 1)));
                    }
                } else {
                    methods.push((d.struct_name.clone(), f));
                    proof {
                        assert(methods.deep_view() =~~= spec_methods(defsv.take(i + 1)));
                        assert(functions.deep_view() =~~= spec_functions(defsv.take(i + 1)));
                    }
                }
            } else {
                proof {
                    assert(methods.deep_view() =~~= spec_methods(defsv.take(i + 1)));
                    assert(functions.deep_view() =~~= spec_functions(defsv.take(i + 1)));
                }
            }
            i = i + 1;
        }
        proof {
            assert(defsv.take(defsv.len() as int) =~= defsv);
        }
        let ghost structsv = self@.structs;
        let mut types: Vec<crate::types::Type> = Vec::new();
        let mut k: usize = 0;
        proof {
            assert(types.deep_view() =~= struct_types(structsv.take(0), locsv));
        }
        while k < self.structs.len()
            invariant
                0 <= k <= self.structs.len(),
                self.wf(),
                structsv == self@.structs,
                locsv == self@.locations,
                structsv.len() == self.structs.len(),
                types@.len() == k,
                types.deep_view() == struct_types(structsv.take(k as int), locsv),
            decreases self.structs.len() - k,
        {
            proof {
                assert(self.structs[k as int].deep_view() == structsv[k as int]);
            }
            let entry_name = &self.structs[k].0;
            let st = build_struct(entry_name, &self.structs[k].1, &self.locations);
            types.push(crate::types::Type::Struct(st));
            proof {
                assert(structsv.take(k + 1).map_values(
                    |e: (Seq<char>, Seq<json::FieldV>)| crate::types::TypeV::Struct(
                        built_struct_v(e.0, e.1, locsv),
                    ),
                ) =~= struct_types(structsv.take(k as int), locsv).push(
                    crate::types::TypeV::Struct(
                        built_struct_v(structsv[k as int].0, structsv[k as int].1, locsv),
                    ),
                ));
                assert(types.deep_view() =~~= struct_types(structsv.take(k + 1), locsv));
            }
            k = k + 1;
        }
        proof {
            assert(structsv.take(structsv.len() as int) =~= structsv);
        }
        let ghost enumsv = self@.enums;
        let mut k: usize = 0;
        proof {
            assert(enum_types(enumsv.take(0), locsv) =~= Seq::<crate::types::TypeV>::empty());
            assert(types.deep_view() =~= struct_types(structsv, locsv) + enum_types(
                enumsv.take(0),
                locsv,
            ));
        }
        while k < self.enums.len()
            invariant
                0 <= k <= self.enums.len(),
                self.wf(),
                enumsv == self@.enums,
                locsv == self@.locations,
                structsv == self@.structs,
                enumsv.len() == self.enums.len(),
                types@.len() == structsv.len() + k,
                types.deep_view() == struct_types(structsv, locsv) + enum_types(
                    enumsv.take(k as int),
                    locsv,
                ),
            decreases self.enums.len() - k,
        {
            proof {
                assert(self.enums[k as int].deep_view() == enumsv[k as int]);
            }
            let entry_name = &self.enums[k].0;
            let en = build_enum(entry_name, &self.enums[k].1, &self.locations);
            types.push(crate::types::Type::Enum(en));
            proof {
                assert(enum_types(enumsv.take(k + 1), locsv) =~= enum_types(
                    enumsv.take(k as int),
                    locsv,
                ).push(
                    crate::types::TypeV::Enum(
                        built_enum_v(enumsv[k as int].0, enumsv[k as int].1, locsv),
                    ),
                ));
                assert(types@.len() == structsv.len() + k + 1);
                assert(types@[(structsv.len() + k) as int].deep_view()
                    == crate::types::TypeV::Enum(
                    built_enum_v(enumsv[k as int].0, enumsv[k as int].1, locsv),
                ));
                assert(forall|x: int|
                    0 <= x < structsv.len() + k ==> (#[trigger] types@[x]).deep_view() == (
                    struct_types(structsv, locsv) + enum_types(enumsv.take(k as int), locsv))[x]);
                assert(types.deep_view() =~~= struct_types(structsv, locsv) + enum_types(
                    enumsv.take(k + 1),
                    locsv,
                ));
            }
            k = k + 1;
        }
        proof {
            assert(enumsv.take(enumsv.len() as int) =~= enumsv);
        }
        let mut prims = crate::types::Type::default_list();
        types.append(&mut prims);
        proof {
            assert(types.deep_view() =~~= base_types(self@));
        }
        let ghost types0 = types.deep_view();
        let ghost ms0 = methods.deep_view();
        proof {
            assert(ms0 == spec_methods(defsv));
        }
        while methods.len() > 0
            invariant
                defsv == self@.defs,
                functions.deep_view() == spec_functions(defsv),
                types0 == base_types(self@),
                ms0 == spec_methods(defsv),
                attach_methods(types0, ms0) == attach_methods(
                    types.deep_view(),
                    methods.deep_view(),
                ),
            decreases methods@.len(),
        {
            let ghost mh = methods@[0];
            let ghost msv = methods.deep_view();
            let ghost tv = types.deep_view();
            proof {
                assert(mh.deep_view() == msv[0]);
            }
            let (owner, f) = methods.remove(0);
            proof {
                assert(owner == mh.0 && f == mh.1);
                assert((owner@, f@) == msv[0]);
                assert(forall|x: int|
                    0 <= x < methods@.len() ==> (#[trigger] methods@[x]).deep_view() == msv[x
                        + 1]);
                assert(methods.deep_view() =~~= msv.skip(1));
            }
            match crate::types::find_type_index(&types, owner.as_str()) {
                None => {
                    let err = Error::UnresolvedOwner(owner);
                    proof {
                        assert(attach_methods(tv, msv) == Err::<Seq<crate::types::TypeV>, ErrorV>(
                            err@,
                        ));
                    }
                    return Err(err);
                },
                Some(idx) => {
                    let ghost told = tv[idx as int];
                    let ghost fv = f@;
                    proof {
                        assert(types@[idx as int].deep_view() == tv[idx as int]);
                    }
                    let res = types[idx].add_method(f);
                    proof {
                        assert(types@.len() == tv.len());
                        assert(forall|x: int|
                            0 <= x < tv.len() && x != idx ==> (#[trigger] types@[x]).deep_view()
                                == tv[x]);
                    }
                    match res {
                        Ok(_) => {
                            proof {
                                if !(told is Struct) {
                                    assert(false);
                                }
                                let s = told->Struct_0;
                                assert(types@[idx as int].deep_view()
                                    == crate::types::TypeV::Struct(
                                    crate::structs::StructV { methods: s.methods.push(fv), ..s },
                                ));
                                assert(types.deep_view() =~~= tv.update(
                                    idx as int,
                                    crate::types::TypeV::Struct(
                                        crate::structs::StructV {
                                            methods: s.methods.push(fv),
                                            ..s
                                        },
                                    ),
                                ));
                                assert(attach_methods(tv, msv) == attach_methods(
                                    types.deep_view(),
                                    methods.deep_view(),
                                ));
                            }
                        },
                        Err(e) => {
                            proof {
                                if told is Struct {
                                    assert(false);
                                }
                                assert(e@ == ErrorV::Unsupported(owner@));
                                assert(attach_methods(tv, msv) == Err::<
                                    Seq<crate::types::TypeV>,
                                    ErrorV,
                                >(e@));
                            }
                            return Err(e);
                        },
                    }
                },
            }
        }
        proof {
            assert(methods.deep_view() =~= Seq::<(Seq<char>, crate::function::FunctionV)>::empty());
            assert(attach_methods(types0, ms0) == Ok::<_, ErrorV>(types.deep_view()));
        }
        Ok(Data { types, functions })
    }
}

/// The spelling of one struct field entry as a catalog field.
pub open spec fn built_field_v(f: json::FieldV) -> crate::structs::FieldV {
    crate::structs::FieldV { name: f.name, template_type: f.template_type, ty: f.ty }
}

/// The location attached to the type named `name`, if the location map has an
/// entry for it: the parsed (filename, line) pair.
pub open spec fn spec_loc_opt(name: Seq<char>, locs: Seq<(Seq<char>, Seq<char>)>) -> Option<
    (Seq<char>, i64),
> {
    match spec_lookup(locs, name) {
        Some(l) => Some((loc_filename(l), loc_line(l) as i64)),
        None => None,
    }
}

/// The catalog struct built from one struct map entry, before methods attach.
pub open spec fn built_struct_v(
    name: Seq<char>,
    fields: Seq<json::FieldV>,
    locs: Seq<(Seq<char>, Seq<char>)>,
) -> crate::structs::StructV {
    crate::structs::StructV {
        name: name,
        fields: fields.map_values(|f: json::FieldV| built_field_v(f)),
        location: spec_loc_opt(name, locs),
        methods: Seq::empty(),
    }
}

/// The catalog enum built from one enum map entry.
pub open spec fn built_enum_v(
    name: Seq<char>,
    values: Seq<json::EnumValueV>,
    locs: Seq<(Seq<char>, Seq<char>)>,
) -> crate::enums::EnumV {
    crate::enums::EnumV {
        name: name,
        values: values.map_values(
            |v: json::EnumValueV| crate::enums::ValueV {
                name: v.name,
                value: v.value,
                calculated_value: match v.calc_value {
                    Some(c) => c,
                    None => 0,
                },
            },
        ),
        location: spec_loc_opt(name, locs),
    }
}

/// The struct entries of the catalog, in map order.
pub open spec fn struct_types(
    ss: Seq<(Seq<char>, Seq<json::FieldV>)>,
    locs: Seq<(Seq<char>, Seq<char>)>,
) -> Seq<crate::types::TypeV> {
    ss.map_values(
        |e: (Seq<char>, Seq<json::FieldV>)| crate::types::TypeV::Struct(
            built_struct_v(e.0, e.1, locs),
        ),
    )
}

/// The enum entries of the catalog, in map order.
pub open spec fn enum_types(
    es: Seq<(Seq<char>, Seq<json::EnumValueV>)>,
    locs: Seq<(Seq<char>, Seq<char>)>,
) -> Seq<crate::types::TypeV> {
    es.map_values(
        |e: (Seq<char>, Seq<json::EnumValueV>)| crate::types::TypeV::Enum(
            built_enum_v(e.0, e.1, locs),
        ),
    )
}

/// The catalog before methods attach: structs, enums, then the fixed C
/// primitives.
pub open spec fn base_types(p: ParserV) -> Seq<crate::types::TypeV> {
    struct_types(p.structs, p.locations) + enum_types(p.enums, p.locations) + seq![
        crate::types::TypeV::C("char*"@),
        crate::types::TypeV::C("int"@),
        crate::types::TypeV::C("float"@),
    ]
}

/// The arguments of a callable: each typed-argument entry paired with its
/// zero-based ordinal position and its default-value expression, looked up by
/// argument name in the record's default map.
pub open spec fn built_args(
    args_t: Seq<json::ArgTV>,
    defaults: Seq<(Seq<char>, Seq<char>)>,
) -> Seq<crate::function::ArgV> {
    Seq::new(
        args_t.len(),
        |i: int| crate::function::ArgV {
            name: args_t[i].name,
            default_value: spec_lookup(defaults, args_t[i].name),
            ty: args_t[i].ty,
            index: i as usize,
        },
    )
}

/// The callable built from one definition record: named by the explicit
/// function name when present, else by the raw metadata key.
pub open spec fn built_function(raw: Seq<char>, d: DefinitionV) -> crate::function::FunctionV {
    crate::function::FunctionV {
        name: match d.func_name {
            Some(n) => n,
            None => raw,
        },
        args: built_args(d.args_t, d.defaults),
        ret: d.ret,
        location: match d.location {
            Some(l) => Some((loc_filename(l), loc_line(l) as i64)),
            None => None,
        },
        signature: d.signature,
    }
}

/// The methods among the non-templated definition records, paired with their
/// owning-struct names, in record order.
pub open spec fn spec_methods(defs: Seq<(Seq<char>, DefinitionV)>) -> Seq<
    (Seq<char>, crate::function::FunctionV),
>
    decreases defs.len(),
{
    if defs.len() == 0 {
        Seq::empty()
    } else {
        spec_methods(defs.drop_last()) + (if !defs.last().1.templated && defs.last().1.struct_name.len()
            > 0 {
            seq![(defs.last().1.struct_name, built_function(defs.last().0, defs.last().1))]
        } else {
            Seq::empty()
        })
    }
}

/// The free functions among the non-templated definition records, in record
/// order.
pub open spec fn spec_functions(defs: Seq<(Seq<char>, DefinitionV)>) -> Seq<
    crate::function::FunctionV,
>
    decreases defs.len(),
{
    if defs.len() == 0 {
        Seq::empty()
    } else {
        spec_functions(defs.drop_last()) + (if !defs.last().1.templated && defs.last().1.struct_name.len()
            == 0 {
            seq![built_function(defs.last().0, defs.last().1)]
        } else {
            Seq::empty()
        })
    }
}

/// The catalog after attaching each method, in order, to the first type whose
/// name equals the method's owner: fails on a missing owner or on an owner
/// that is not a struct.
pub open spec fn attach_methods(
    types: Seq<crate::types::TypeV>,
    ms: Seq<(Seq<char>, crate::function::FunctionV)>,
) -> Result<Seq<crate::types::TypeV>, ErrorV>
    decreases ms.len(),
{
    if ms.len() == 0 {
        Ok(types)
    } else {
        match crate::types::find_type_idx(types, ms[0].0) {
            None => Err(ErrorV::UnresolvedOwner(ms[0].0)),
            Some(i) => match types[i] {
                crate::types::TypeV::Struct(s) => attach_methods(
                    types.update(
                        i,
                        crate::types::TypeV::Struct(
                            crate::structs::StructV { methods: s.methods.push(ms[0].1), ..s },
                        ),
                    ),
                    ms.skip(1),
                ),
                _ => Err(ErrorV::Unsupported(ms[0].0)),
            },
        }
    }
}

/// What one resolution run yields: the catalog with methods attached, and the
/// free-function list.
pub open spec fn spec_resolve(p: ParserV) -> Result<DataV, ErrorV> {
    match attach_methods(base_types(p), spec_methods(p.defs)) {
        Ok(types) => Ok(DataV { types, functions: spec_functions(p.defs) }),
        Err(e) => Err(e),
    }
}

/// When every stored location is well formed, so is any location looked up.
proof fn lemma_lookup_wf(locs: Seq<(Seq<char>, Seq<char>)>, k: Seq<char>)
    requires
        forall|i: int| 0 <= i < locs.len() ==> loc_wf((#[trigger] locs[i]).1),
        spec_lookup(locs, k) is Some,
    ensures
        loc_wf(spec_lookup(locs, k)->Some_0),
{
    lemma_key_idx(locs, k);
}

/// Builds one callable from a definition record.
fn build_callable(raw: &String, d: &json::Definition) -> (r: crate::function::Function)
    requires
        def_loc_ok(d@),
    ensures
        r@ == built_function(raw@, d@),
{
    let ghost argsv = built_args(d@.args_t, d@.defaults);
    let mut args: Vec<crate::function::Arg> = Vec::new();
    let mut j: usize = 0;
    proof {
        assert(args.deep_view() =~= argsv.take(0));
    }
    while j < d.args_t.len()
        invariant
            0 <= j <= d.args_t.len(),
            argsv == built_args(d@.args_t, d@.defaults),
            argsv.len() == d.args_t.len(),
            d@.args_t.len() == d.args_t.len(),
            args.deep_view() == argsv.take(j as int),
            args@.len() == j,
        decreases d.args_t.len() - j,
    {
        proof {
            assert(d.args_t[j as int].deep_view() == d@.args_t[j as int]);
        }
        let at = &d.args_t[j];
        let default_value = match map_get(&d.defaults, at.name.as_str()) {
            Some(s) => Some(s.clone()),
            None => None,
        };
        let a = crate::function::Arg::from_parsed(
            at.name.clone(),
            default_value,
            at.ty.clone(),
            j,
        );
        proof {
            assert(a@ == argsv[j as int]);
        }
        args.push(a);
        proof {
            assert(args.deep_view() =~~= argsv.take(j + 1));
        }
        j = j + 1;
    }
    proof {
        assert(argsv.take(argsv.len() as int) =~= argsv);
    }
    let name = match &d.func_name {
        Some(n) => n.clone(),
        None => raw.clone(),
    };
    let location = match &d.location {
        Some(l) => Some((l.filename().to_owned(), l.line_number())),
        None => None,
    };
    let ret = match &d.ret {
        Some(s) => Some(s.clone()),
        None => None,
    };
    crate::function::Function::from_parsed(
        crate::name::Name::from_string(name),
        args,
        location,
        ret,
        d.signature.clone(),
    )
}

/// Builds one catalog struct from a struct map entry, attaching its location
/// when the location map names it.
fn build_struct(
    name: &String,
    s: &json::Struct,
    locations: &Vec<(String, json::Location)>,
) -> (r: crate::structs::Struct)
    requires
        forall|i: int|
            0 <= i < locations.deep_view().len() ==> loc_wf(
                (#[trigger] locations.deep_view()[i]).1,
            ),
    ensures
        r@ == built_struct_v(name@, s@, locations.deep_view()),
{
    let ghost fv = s@.map_values(|f: json::FieldV| built_field_v(f));
    let mut fields: Vec<crate::structs::Field> = Vec::new();
    let mut j: usize = 0;
    proof {
        assert(fields.deep_view() =~= fv.take(0));
    }
    while j < s.0.len()
        invariant
            0 <= j <= s.0.len(),
            fv == s@.map_values(|f: json::FieldV| built_field_v(f)),
            fv.len() == s.0.len(),
            s@.len() == s.0.len(),
            fields.deep_view() == fv.take(j as int),
            fields@.len() == j,
        decreases s.0.len() - j,
    {
        proof {
            assert(s.0[j as int].deep_view() == s@[j as int]);
        }
        let f = &s.0[j];
        let template_type = match &f.template_type {
            Some(t) => Some(t.clone()),
            None => None,
        };
        let built = crate::structs::Field::from_parsed(
            crate::name::Name::from_str(f.name.as_str()),
            template_type,
            f.ty.clone(),
        );
        proof {
            assert(built@ == fv[j as int]);
        }
        fields.push(built);
        proof {
            assert(fields.deep_view() =~~= fv.take(j + 1));
        }
        j = j + 1;
    }
    proof {
        assert(fv.take(fv.len() as int) =~= fv);
    }
    let mut st = crate::structs::Struct::from_parsed(
        crate::name::Name::from_str(name.as_str()),
        fields,
    );
    match map_get(locations, name.as_str()) {
        Some(l) => {
            proof {
                lemma_lookup_wf(locations.deep_view(), name@);
            }
            let line = l.line_number();
            st.add_location(l.filename(), line);
        },
        None => {},
    }
    st
}

/// Builds one catalog enum from an enum map entry, attaching its location
/// when the location map names it.
fn build_enum(
    name: &String,
    e: &json::Enum,
    locations: &Vec<(String, json::Location)>,
) -> (r: crate::enums::Enum)
    requires
        forall|i: int|
            0 <= i < locations.deep_view().len() ==> loc_wf(
                (#[trigger] locations.deep_view()[i]).1,
            ),
    ensures
        r@ == built_enum_v(name@, e@, locations.deep_view()),
{
    let ghost vv = built_enum_v(name@, e@, locations.deep_view()).values;
    let mut values: Vec<crate::enums::Value> = Vec::new();
    let mut j: usize = 0;
    proof {
        assert(values.deep_view() =~= vv.take(0));
    }
    while j < e.0.len()
        invariant
            0 <= j <= e.0.len(),
            vv == built_enum_v(name@, e@, locations.deep_view()).values,
            vv.len() == e.0.len(),
            e@.len() == e.0.len(),
            vv == e@.map_values(
                |v: json::EnumValueV| crate::enums::ValueV {
                    name: v.name,
                    value: v.value,
                    calculated_value: match v.calc_value {
                        Some(c) => c,
                        None => 0,
                    },
                },
            ),
            values.deep_view() == vv.take(j as int),
            values@.len() == j,
        decreases e.0.len() - j,
    {
        proof {
            assert(e.0[j as int].deep_view() == e@[j as int]);
        }
        let v = &e.0[j];
        let calc = match v.calc_value {
            Some(c) => c,
            None => 0,
        };
        let built = crate::enums::Value::from_parsed(v.name.clone(), v.value.clone(), calc);
        proof {
            assert(built@ == vv[j as int]);
        }
        values.push(built);
        proof {
            assert(values.deep_view() =~~= vv.take(j + 1));
        }
        j = j + 1;
    }
    proof {
        assert(vv.take(vv.len() as int) =~= vv);
    }
    let mut en = crate::enums::Enum::from_parsed(name.clone(), values);
    match map_get(locations, name.as_str()) {
        Some(l) => {
            proof {
                lemma_lookup_wf(locations.deep_view(), name@);
            }
            let line = l.line_number();
            en.add_location(l.filename(), line);
        },
        None => {},
    }
    en
}

/// The resolved output of one run: the catalog and the free-function list.
#[derive(Debug)]
pub struct Data {
    types: Vec<crate::types::Type>,
    functions: Vec<crate::function::Function>,
}

/// The mathematical value of the resolved output.
pub struct DataV {
    pub types: Seq<crate::types::TypeV>,
    pub functions: Seq<crate::function::FunctionV>,
}

impl View for Data {
    type V = DataV;

    closed spec fn view(&self) -> DataV {
        DataV { types: self.types.deep_view(), functions: self.functions.deep_view() }
    }
}

impl Data {
    /// The resolved catalog.
    pub fn types(&self) -> (r: &Vec<crate::types::Type>)
        ensures
            r.deep_view() == self@.types,
    {
        &self.types
    }

    /// The resolved free-function list.
    pub fn functions(&self) -> (r: &Vec<crate::function::Function>)
        ensures
            r.deep_view() == self@.functions,
    {
        &self.functions
    }

    /// Whether every function's every argument classifies against the
    /// catalog, so that the Lua module can be rendered.
    pub open spec fn renderable(&self) -> bool {
        forall|i: int|
            0 <= i < self@.functions.len() ==> crate::function::spec_fn_renderable(
                #[trigger] self@.functions[i],
                self@.types,
            )
    }

    /// Renders the whole Lua wrapper module around the given argument-check
    /// helper text.
    pub fn lua(&self, args_lua: &str) -> (r: String)
        requires
            self.renderable(),
        ensures
            r@ == spec_data_lua(self@, args_lua@),
    {
        let ghost fv = self@.functions;
        let ghost model = fv.map_values(
            |f: crate::function::FunctionV| crate::function::spec_fn_lua(f, self@.types),
        );
        let mut parts: Vec<String> = Vec::new();
        let mut i: usize = 0;
        proof {
            assert(parts.deep_view() =~= model.take(0));
        }
        while i < self.functions.len()
            invariant
                0 <= i <= self.functions.len(),
                fv == self@.functions,
                self.renderable(),
                model == fv.map_values(
                    |f: crate::function::FunctionV| crate::function::spec_fn_lua(f, self@.types),
                ),
                model.len() == self.functions.len(),
                fv.len() == self.functions.len(),
                parts@.len() == i,
                parts.deep_view() == model.take(i as int),
            decreases self.functions.len() - i,
        {
            proof {
                assert(self.functions[i as int].deep_view() == fv[i as int]);
                assert(crate::function::spec_fn_renderable(fv[i as int], self@.types));
            }
            let part = crate::render::Render::lua(&self.functions[i], &self.types);
            parts.push(part);
            proof {
                assert(parts.deep_view() =~~= model.take(i + 1));
            }
            i = i + 1;
        }
        proof {
            assert(model.take(model.len() as int) =~= model);
        }
        let joined = crate::text::join(&parts, "\n");
        let mut r = String::new();
        r.append("local gui = {}\ngui.__index = gui\n\n");
        r.append(args_lua);
        r.append("\n--[[ Functions ]]\n\n");
        r.append(joined.as_str());
        r.append("\nreturn gui\n");
        r
    }

    /// Renders the flat cdef declaration listing.
    pub fn cdefs(&self) -> (r: String)
        ensures
            r@ == spec_data_cdefs(self@),
    {
        let ghost fv = self@.functions;
        let ghost model = fv.map_values(
            |f: crate::function::FunctionV| crate::function::spec_fn_cdef(f),
        );
        let mut parts: Vec<String> = Vec::new();
        let mut i: usize = 0;
        proof {
            assert(parts.deep_view() =~= model.take(0));
        }
        while i < self.functions.len()
            invariant
                0 <= i <= self.functions.len(),
                fv == self@.functions,
                model == fv.map_values(
                    |f: crate::function::FunctionV| crate::function::spec_fn_cdef(f),
                ),
                model.len() == self.functions.len(),
                fv.len() == self.functions.len(),
                parts@.len() == i,
                parts.deep_view() == model.take(i as int),
            decreases self.functions.len() - i,
        {
            proof {
                assert(self.functions[i as int].deep_view() == fv[i as int]);
            }
            let part = crate::render::Render::cdef(&self.functions[i], &self.types);
            parts.push(part);
            proof {
                assert(parts.deep_view() =~~= model.take(i + 1));
            }
            i = i + 1;
        }
        proof {
            assert(model.take(model.len() as int) =~= model);
        }
        let joined = crate::text::join(&parts, "\n");
        let mut r = String::new();
        r.append("return [[\n");
        r.append(joined.as_str());
        r.append("\n]]\n");
        r
    }
}

/// A type with its methods stripped: what method attachment leaves untouched.
pub open spec fn type_shape(t: crate::types::TypeV) -> crate::types::TypeV {
    match t {
        crate::types::TypeV::Struct(s) => crate::types::TypeV::Struct(
            crate::structs::StructV { methods: Seq::empty(), ..s },
        ),
        _ => t,
    }
}

/// Attaching methods only appends to structs' method lists: it never changes
/// a type's name, fields, values or location, nor the catalog's length or
/// order.
pub proof fn lemma_attach_preserves_shapes(
    types: Seq<crate::types::TypeV>,
    ms: Seq<(Seq<char>, crate::function::FunctionV)>,
)
    requires
        attach_methods(types, ms) is Ok,
    ensures
        attach_methods(types, ms)->Ok_0.len() == types.len(),
        forall|i: int|
            0 <= i < types.len() ==> type_shape(#[trigger] attach_methods(types, ms)->Ok_0[i])
                == type_shape(types[i]),
    decreases ms.len(),
{
    if ms.len() > 0 {
        match crate::types::find_type_idx(types, ms[0].0) {
            None => {},
            Some(i) => {
                crate::types::lemma_find_type_idx(types, ms[0].0);
                match types[i] {
                    crate::types::TypeV::Struct(s) => {
                        let next = types.update(
                            i,
                            crate::types::TypeV::Struct(
                                crate::structs::StructV { methods: s.methods.push(ms[0].1), ..s },
                            ),
                        );
                        lemma_attach_preserves_shapes(next, ms.skip(1));
                        assert(forall|j: int|
                            0 <= j < types.len() ==> type_shape(#[trigger] next[j]) == type_shape(
                                types[j],
                            ));
                    },
                    _ => {},
                }
            },
        }
    }
}

/// For every struct name present in both the struct map and the location
/// map, resolution attaches to that struct's catalog entry the parsed
/// (filename, line) pair of its location string, the filename being the
/// text before the last `:`.
pub proof fn lemma_struct_location_attached(p: ParserV, name: Seq<char>)
    requires
        parser_wf(p),
        spec_key_idx(p.structs, name) is Some,
        spec_lookup(p.locations, name) is Some,
        spec_resolve(p) is Ok,
    ensures
        ({
            let d = spec_resolve(p)->Ok_0;
            let i = spec_key_idx(p.structs, name)->Some_0;
            let l = spec_lookup(p.locations, name)->Some_0;
            &&& 0 <= i < d.types.len()
            &&& d.types[i] is Struct
            &&& d.types[i]->Struct_0.name == name
            &&& d.types[i]->Struct_0.location == Some((loc_filename(l), loc_line(l) as i64))
            &&& loc_filename(l) == l.take(json::last_colon(l)->Some_0)
        }),
{
    let i = spec_key_idx(p.structs, name)->Some_0;
    lemma_key_idx(p.structs, name);
    let base = base_types(p);
    assert(base[i] == struct_types(p.structs, p.locations)[i]);
    assert(base[i] == crate::types::TypeV::Struct(
        built_struct_v(p.structs[i].0, p.structs[i].1, p.locations),
    ));
    lemma_attach_preserves_shapes(base, spec_methods(p.defs));
    let d = spec_resolve(p)->Ok_0;
    assert(type_shape(d.types[i]) == type_shape(base[i]));
}

/// When some method's owning-struct name matches no type in the catalog,
/// resolution fails: no data is produced, so the method is attached nowhere.
pub proof fn lemma_unresolved_owner_fails(p: ParserV)
    requires
        exists|i: int|
            0 <= i < spec_methods(p.defs).len() && crate::types::find_type_idx(
                base_types(p),
                (#[trigger] spec_methods(p.defs)[i]).0,
            ) is None,
    ensures
        spec_resolve(p) is Err,
{
    let i = choose|i: int|
        0 <= i < spec_methods(p.defs).len() && crate::types::find_type_idx(
            base_types(p),
            (#[trigger] spec_methods(p.defs)[i]).0,
        ) is None;
    lemma_attach_err(base_types(p), spec_methods(p.defs), i);
}

/// Helper for `lemma_unresolved_owner_fails`: attaching a method list with an
/// unresolvable owner fails.
proof fn lemma_attach_err(
    types: Seq<crate::types::TypeV>,
    ms: Seq<(Seq<char>, crate::function::FunctionV)>,
    i: int,
)
    requires
        0 <= i < ms.len(),
        crate::types::find_type_idx(types, ms[i].0) is None,
    ensures
        attach_methods(types, ms) is Err,
    decreases ms.len(),
{
    if i == 0 {
    } else {
        match crate::types::find_type_idx(types, ms[0].0) {
            None => {},
            Some(k) => {
                crate::types::lemma_find_type_idx(types, ms[0].0);
                match types[k] {
                    crate::types::TypeV::Struct(s) => {
                        let next = types.update(
                            k,
                            crate::types::TypeV::Struct(
                                crate::structs::StructV { methods: s.methods.push(ms[0].1), ..s },
                            ),
                        );
                        assert(forall|j: int|
                            0 <= j < types.len() ==> crate::types::spec_ty_name(#[trigger] next[j])
                                == crate::types::spec_ty_name(types[j]));
                        lemma_find_same_names(types, next, ms[i].0);
                        assert(ms.skip(1)[i - 1] == ms[i]);
                        lemma_attach_err(next, ms.skip(1), i - 1);
                    },
                    _ => {},
                }
            },
        }
    }
}

/// Catalogs whose types bear the same names in the same order resolve any
/// name to the same index.
proof fn lemma_find_same_names(
    a: Seq<crate::types::TypeV>,
    b: Seq<crate::types::TypeV>,
    name: Seq<char>,
)
    requires
        a.len() == b.len(),
        forall|i: int|
            0 <= i < a.len() ==> crate::types::spec_ty_name(#[trigger] a[i])
                == crate::types::spec_ty_name(b[i]),
    ensures
        crate::types::find_type_idx(a, name) == crate::types::find_type_idx(b, name),
    decreases a.len(),
{
    if a.len() > 0 {
        assert(forall|i: int|
            0 <= i < a.len() - 1 ==> crate::types::spec_ty_name(#[trigger] a.skip(1)[i])
                == crate::types::spec_ty_name(b.skip(1)[i]));
        lemma_find_same_names(a.skip(1), b.skip(1), name);
    }
}

/// Resolution is a function of the ingested document set alone: two runs
/// over equal document sets yield structurally equal catalogs and function
/// lists. `parse` never modifies the document set, so calling it twice on an
/// unmodified parser is idempotent.
pub proof fn lemma_resolve_deterministic(p1: ParserV, p2: ParserV)
    requires
        p1 == p2,
    ensures
        spec_resolve(p1) == spec_resolve(p2),
{
}

/// Every built argument's positional index equals its zero-based ordinal
/// position in the metadata's typed-argument list, and its default-value
/// expression is the one its name maps to in the record's default map.
pub proof fn lemma_argument_indices(
    args_t: Seq<json::ArgTV>,
    defaults: Seq<(Seq<char>, Seq<char>)>,
)
    requires
        args_t.len() <= usize::MAX,
    ensures
        built_args(args_t, defaults).len() == args_t.len(),
        forall|i: int|
            0 <= i < args_t.len() ==> (#[trigger] built_args(args_t, defaults)[i]).index == i,
        forall|i: int|
            0 <= i < args_t.len() ==> (#[trigger] built_args(args_t, defaults)[i]).default_value
                == spec_lookup(defaults, args_t[i].name),
{
}

/// The whole Lua wrapper module: the module header, the argument-check helper
/// text, and one wrapper per free function.
pub open spec fn spec_data_lua(d: DataV, args_lua: Seq<char>) -> Seq<char> {
    "local gui = {}\ngui.__index = gui\n\n"@ + args_lua + "\n--[[ Functions ]]\n\n"@
        + crate::text::spec_join(
        d.functions.map_values(
            |f: crate::function::FunctionV| crate::function::spec_fn_lua(f, d.types),
        ),
        "\n"@,
    ) + "\nreturn gui\n"@
}

/// The flat cdef listing: one foreign declaration per free function, wrapped
/// as a Lua long string.
pub open spec fn spec_data_cdefs(d: DataV) -> Seq<char> {
    "return [[\n"@ + crate::text::spec_join(
        d.functions.map_values(|f: crate::function::FunctionV| crate::function::spec_fn_cdef(f)),
        "\n"@,
    ) + "\n]]\n"@
}

/// One definitions-document entry flattened: each record under the entry's
/// raw name becomes one (raw name, record) pair, in record order.
pub open spec fn doc_pairs(e: (Seq<char>, Seq<DefinitionV>)) -> Seq<(Seq<char>, DefinitionV)> {
    e.1.map_values(|d: DefinitionV| (e.0, d))
}

/// A definitions document flattened: every record of every entry, in document
/// order.
pub open spec fn defs_flat(docs: Seq<(Seq<char>, Seq<DefinitionV>)>) -> Seq<
    (Seq<char>, DefinitionV),
>
    decreases docs.len(),
{
    if docs.len() == 0 {
        Seq::empty()
    } else {
        defs_flat(docs.drop_last()) + doc_pairs(docs.last())
    }
}

/// Upserting a well-formed location keeps every stored location well formed.
proof fn lemma_upsert_loc_wf(
    m: Seq<(Seq<char>, Seq<char>)>,
    k: Seq<char>,
    v: Seq<char>,
)
    requires
        forall|i: int| 0 <= i < m.len() ==> loc_wf((#[trigger] m[i]).1),
        loc_wf(v),
    ensures
        forall|i: int|
            0 <= i < spec_upsert(m, k, v).len() ==> loc_wf((#[trigger] spec_upsert(m, k, v)[i]).1),
{
    lemma_key_idx(m, k);
}

/// Merging a document whose locations are all well formed keeps every stored
/// location well formed.
proof fn lemma_merge_loc_wf(m: Seq<(Seq<char>, Seq<char>)>, entries: Seq<(Seq<char>, Seq<char>)>)
    requires
        forall|i: int| 0 <= i < m.len() ==> loc_wf((#[trigger] m[i]).1),
        forall|i: int| 0 <= i < entries.len() ==> loc_wf((#[trigger] entries[i]).1),
    ensures
        forall|i: int|
            0 <= i < spec_merge(m, entries).len() ==> loc_wf(
                (#[trigger] spec_merge(m, entries)[i]).1,
            ),
    decreases entries.len(),
{
    if entries.len() > 0 {
        lemma_merge_loc_wf(m, entries.drop_last());
        lemma_upsert_loc_wf(
            spec_merge(m, entries.drop_last()),
            entries.last().0,
            entries.last().1,
        );
    }
}

} // verus!
