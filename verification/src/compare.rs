use vstd::prelude::*;

verus! {

use crate::mistake::{Mistake, MistakeKind, MistakeV, missing_method_v};
use crate::model::{Class, DClassV, DRelV, DiagV, Diagram, Relationship, RelationshipKind};
use crate::strings::str_eq;
use vstd::string::StringExecFns;

/// Whether some class from position `i` on bears this name.
pub open spec fn has_class_from(cs: Seq<DClassV>, i: int, name: Seq<char>) -> bool
    decreases cs.len() - i,
{
    if i < 0 || i >= cs.len() {
        false
    } else if cs[i].name == name {
        true
    } else {
        has_class_from(cs, i + 1, name)
    }
}

/// Whether some relationship from position `i` on bears this key.
pub open spec fn has_key_from(rs: Seq<DRelV>, i: int, from: Seq<char>, to: Seq<char>) -> bool
    decreases rs.len() - i,
{
    if i < 0 || i >= rs.len() {
        false
    } else if rs[i].from == from && rs[i].to == to {
        true
    } else {
        has_key_from(rs, i + 1, from, to)
    }
}

/// The last relationship bearing this key, scanning back from position
/// `n`; the binding a keyed table of them would keep.
pub open spec fn last_rel_before(rs: Seq<DRelV>, n: int, from: Seq<char>, to: Seq<char>) -> Option<
    DRelV,
>
    decreases n,
{
    if n <= 0 || n > rs.len() {
        None
    } else if rs[n - 1].from == from && rs[n - 1].to == to {
        Some(rs[n - 1])
    } else {
        last_rel_before(rs, n - 1, from, to)
    }
}

/// The message of a class drawn but absent from the code, as the
/// comparison words it.
pub open spec fn extra_class_msg(name: Seq<char>) -> Seq<char> {
    "Class '"@ + name + "' is not present in the code but appears in your diagram."@
}

/// The message of a relationship drawn but absent from the code, as the
/// comparison words it.
pub open spec fn extra_rel_msg(from: Seq<char>, to: Seq<char>) -> Seq<char> {
    "Extra relationship from '"@ + from + "' to '"@ + to + "' appears in your diagram."@
}

/// The printed name of a relationship kind.
pub open spec fn kind_name(k: RelationshipKind) -> Seq<char> {
    match k {
        RelationshipKind::Association => "Association"@,
        RelationshipKind::Aggregation => "Aggregation"@,
        RelationshipKind::Composition => "Composition"@,
        RelationshipKind::Inheritance => "Inheritance"@,
    }
}

/// The message of a relationship drawn with the wrong kind.
pub open spec fn wrong_kind_msg(r_ok: DRelV, r_bad: DRelV) -> Seq<char> {
    "Relationship between '"@ + r_ok.from + "' and '"@ + r_ok.to + "' should be "@ + kind_name(
        r_ok.kind,
    ) + ", not "@ + kind_name(r_bad.kind) + "."@
}

/// The missing-class mistakes: one per class name of the code, in first
/// occurrence order, that the diagram lacks.
pub open spec fn missing_classes_upto(c: Seq<DClassV>, s: Seq<DClassV>, n: int) -> Seq<MistakeV>
    decreases n,
{
    if n <= 0 {
        Seq::empty()
    } else {
        missing_classes_upto(c, s, n - 1) + (if !has_class_from(c.take(n - 1), 0, c[n - 1].name)
            && !has_class_from(s, 0, c[n - 1].name) {
            seq![
                MistakeV {
                    kind: MistakeKind::MissingClass,
                    msg: "Class '"@ + c[n - 1].name + "' is missing from your diagram."@,
                    related: seq![c[n - 1].name],
                },
            ]
        } else {
            Seq::<MistakeV>::empty()
        })
    }
}

/// The extra-class mistakes: one per class name drawn, in first occurrence
/// order, that the code lacks.
pub open spec fn extra_classes_upto(c: Seq<DClassV>, s: Seq<DClassV>, n: int) -> Seq<MistakeV>
    decreases n,
{
    if n <= 0 {
        Seq::empty()
    } else {
        extra_classes_upto(c, s, n - 1) + (if !has_class_from(s.take(n - 1), 0, s[n - 1].name)
            && !has_class_from(c, 0, s[n - 1].name) {
            seq![
                MistakeV {
                    kind: MistakeKind::ExtraClass,
                    msg: extra_class_msg(s[n - 1].name),
                    related: seq![s[n - 1].name],
                },
            ]
        } else {
            Seq::<MistakeV>::empty()
        })
    }
}

/// Whether position `i` holds the last occurrence of its key.
pub open spec fn is_last_key(rs: Seq<DRelV>, i: int) -> bool {
    !has_key_from(rs, i + 1, rs[i].from, rs[i].to)
}

/// The missing-relationship mistakes, one per key of the code that the
/// diagram lacks, at the key's last occurrence.
pub open spec fn missing_rels_upto(c: Seq<DRelV>, s: Seq<DRelV>, n: int) -> Seq<MistakeV>
    decreases n,
{
    if n <= 0 {
        Seq::empty()
    } else {
        missing_rels_upto(c, s, n - 1) + (if is_last_key(c, n - 1) && !has_key_from(
            s,
            0,
            c[n - 1].from,
            c[n - 1].to,
        ) {
            seq![crate::mistake::missing_relationship_v(c[n - 1].from, c[n - 1].to)]
        } else {
            Seq::<MistakeV>::empty()
        })
    }
}

/// The extra-relationship mistakes, one per key drawn that the code lacks.
pub open spec fn extra_rels_upto(c: Seq<DRelV>, s: Seq<DRelV>, n: int) -> Seq<MistakeV>
    decreases n,
{
    if n <= 0 {
        Seq::empty()
    } else {
        extra_rels_upto(c, s, n - 1) + (if is_last_key(s, n - 1) && !has_key_from(
            c,
            0,
            s[n - 1].from,
            s[n - 1].to,
        ) {
            seq![
                MistakeV {
                    kind: MistakeKind::ExtraRelationship,
                    msg: extra_rel_msg(s[n - 1].from, s[n - 1].to),
                    related: seq![s[n - 1].from, s[n - 1].to],
                },
            ]
        } else {
            Seq::<MistakeV>::empty()
        })
    }
}

/// The wrong-kind mistakes: for each key both sides share, at its last
/// occurrences, a mistake when the kinds differ.
pub open spec fn wrong_kind_upto(c: Seq<DRelV>, s: Seq<DRelV>, n: int) -> Seq<MistakeV>
    decreases n,
{
    if n <= 0 {
        Seq::empty()
    } else {
        wrong_kind_upto(c, s, n - 1) + (if is_last_key(c, n - 1) {
            match last_rel_before(s, s.len() as int, c[n - 1].from, c[n - 1].to) {
                Some(sr) => if sr.kind != c[n - 1].kind {
                    seq![
                        MistakeV {
                            kind: MistakeKind::WrongRelationshipType,
                            msg: wrong_kind_msg(c[n - 1], sr),
                            related: seq![c[n - 1].from, c[n - 1].to],
                        },
                    ]
                } else {
                    Seq::<MistakeV>::empty()
                },
                None => Seq::<MistakeV>::empty(),
            }
        } else {
            Seq::<MistakeV>::empty()
        })
    }
}

/// The first class from position `i` on bearing this name.
pub open spec fn find_class_from(cs: Seq<DClassV>, i: int, name: Seq<char>) -> Option<DClassV>
    decreases cs.len() - i,
{
    if i < 0 || i >= cs.len() {
        None
    } else if cs[i].name == name {
        Some(cs[i])
    } else {
        find_class_from(cs, i + 1, name)
    }
}

/// Whether some name from position `i` on equals `m`.
pub open spec fn has_name_from(ms: Seq<Seq<char>>, i: int, m: Seq<char>) -> bool
    decreases ms.len() - i,
{
    if i < 0 || i >= ms.len() {
        false
    } else if ms[i] == m {
        true
    } else {
        has_name_from(ms, i + 1, m)
    }
}

/// The missing-method mistakes of one class of the code against the
/// matching drawn class's methods.
pub open spec fn missing_methods_of(cls: DClassV, smethods: Seq<Seq<char>>, n: int) -> Seq<MistakeV>
    decreases n,
{
    if n <= 0 {
        Seq::empty()
    } else {
        missing_methods_of(cls, smethods, n - 1) + (if !has_name_from(
            smethods,
            0,
            cls.methods[n - 1],
        ) {
            seq![missing_method_v(cls.name, cls.methods[n - 1])]
        } else {
            Seq::<MistakeV>::empty()
        })
    }
}

/// The missing-method mistakes over all classes of the code: a class with
/// no drawn counterpart misses all of its methods.
pub open spec fn missing_methods_upto(c: Seq<DClassV>, s: Seq<DClassV>, n: int) -> Seq<MistakeV>
    decreases n,
{
    if n <= 0 {
        Seq::empty()
    } else {
        let sm: Seq<Seq<char>> = match find_class_from(s, 0, c[n - 1].name) {
            Some(sc) => sc.methods,
            None => Seq::empty(),
        };
        missing_methods_upto(c, s, n - 1) + missing_methods_of(
            c[n - 1],
            sm,
            c[n - 1].methods.len() as int,
        )
    }
}

/// Every mistake the comparison finds, in a fixed order: missing classes,
/// extra classes, missing relationships, extra relationships, wrong
/// relationship kinds, then missing methods.
pub open spec fn spec_mistakes(c: DiagV, s: DiagV) -> Seq<MistakeV> {
    missing_classes_upto(c.classes, s.classes, c.classes.len() as int) + extra_classes_upto(
        c.classes,
        s.classes,
        s.classes.len() as int,
    ) + missing_rels_upto(c.rels, s.rels, c.rels.len() as int) + extra_rels_upto(
        c.rels,
        s.rels,
        s.rels.len() as int,
    ) + wrong_kind_upto(c.rels, s.rels, c.rels.len() as int) + missing_methods_upto(
        c.classes,
        s.classes,
        c.classes.len() as int,
    )
}

/// Whether some class up to position `upto` bears this name.
fn class_named_before(cs: &Vec<Class>, upto: usize, name: &str) -> (r: bool)
    requires
        upto <= cs@.len(),
    ensures
        r == has_class_from(cs@.map_values(|c: Class| c@).take(upto as int), 0, name@),
{
    let ghost csv = cs@.map_values(|c: Class| c@).take(upto as int);
    let mut i: usize = 0;
    while i < upto
        invariant
            i <= upto <= cs@.len(),
            csv == cs@.map_values(|c: Class| c@).take(upto as int),
            csv.len() == upto,
            has_class_from(csv, 0, name@) == has_class_from(csv, i as int, name@),
        decreases upto - i,
    {
        proof {
            assert(csv[i as int] == cs@[i as int]@);
        }
        if str_eq(cs[i].name.as_str(), name) {
            return true;
        }
        i = i + 1;
    }
    false
}

/// Whether some class bears this name.
fn class_named(cs: &Vec<Class>, name: &str) -> (r: bool)
    ensures
        r == has_class_from(cs@.map_values(|c: Class| c@), 0, name@),
{
    let ghost csv = cs@.map_values(|c: Class| c@);
    proof {
        assert(csv.take(csv.len() as int) =~= csv);
    }
    class_named_before(cs, cs.len(), name)
}

/// Whether some relationship from position `start` on bears this key.
fn rel_keyed_from(rs: &Vec<Relationship>, start: usize, from: &str, to: &str) -> (r: bool)
    requires
        start <= rs@.len(),
    ensures
        r == has_key_from(rs@.map_values(|x: Relationship| x@), start as int, from@, to@),
{
    let ghost rsv = rs@.map_values(|x: Relationship| x@);
    let mut i: usize = start;
    while i < rs.len()
        invariant
            start <= i <= rs@.len(),
            rsv == rs@.map_values(|x: Relationship| x@),
            rsv.len() == rs@.len(),
            has_key_from(rsv, start as int, from@, to@) == has_key_from(rsv, i as int, from@, to@),
        decreases rs@.len() - i,
    {
        proof {
            assert(rsv[i as int] == rs@[i as int]@);
        }
        if str_eq(rs[i].from.as_str(), from) && str_eq(rs[i].to.as_str(), to) {
            return true;
        }
        i = i + 1;
    }
    false
}

/// The last relationship bearing this key.
fn last_rel<'a>(rs: &'a Vec<Relationship>, from: &str, to: &str) -> (r: Option<&'a Relationship>)
    ensures
        match r {
            Some(x) => last_rel_before(
                rs@.map_values(|y: Relationship| y@),
                rs@.len() as int,
                from@,
                to@,
            ) == Some(x@),
            None => last_rel_before(
                rs@.map_values(|y: Relationship| y@),
                rs@.len() as int,
                from@,
                to@,
            ) is None,
        },
{
    let ghost rsv = rs@.map_values(|y: Relationship| y@);
    let mut n: usize = rs.len();
    while n > 0
        invariant
            n <= rs@.len(),
            rsv == rs@.map_values(|y: Relationship| y@),
            rsv.len() == rs@.len(),
            last_rel_before(rsv, rsv.len() as int, from@, to@) == last_rel_before(
                rsv,
                n as int,
                from@,
                to@,
            ),
        decreases n,
    {
        proof {
            assert(rsv[n - 1] == rs@[n - 1]@);
        }
        if str_eq(rs[n - 1].from.as_str(), from) && str_eq(rs[n - 1].to.as_str(), to) {
            return Some(&rs[n - 1]);
        }
        n = n - 1;
    }
    None
}

/// The printed name of a relationship kind.
fn kind_name_exec(k: RelationshipKind) -> (r: String)
    ensures
        r@ == kind_name(k),
{
    match k {
        RelationshipKind::Association => String::from_str("Association"),
        RelationshipKind::Aggregation => String::from_str("Aggregation"),
        RelationshipKind::Composition => String::from_str("Composition"),
        RelationshipKind::Inheritance => String::from_str("Inheritance"),
    }
}

/// Compares the diagram the code induces with the drawn one and lists
/// every mistake found, in a fixed deterministic order.
#[verifier::rlimit(100)]
pub fn analyze_mistakes(correct: &Diagram, student: &Diagram) -> (r: Vec<Mistake>)
    ensures
        r@.map_values(|m: Mistake| m@) == spec_mistakes(correct@, student@),
{
    let mut mistakes: Vec<Mistake> = Vec::new();
    let ghost cc = correct@.classes;
    let ghost sc = student@.classes;
    let ghost cr = correct@.rels;
    let ghost sr = student@.rels;
    proof {
        assert(mistakes@.map_values(|m: Mistake| m@) =~= Seq::<MistakeV>::empty());
    }
    let mut i: usize = 0;
    while i < correct.classes.len()
        invariant
            i <= correct.classes@.len(),
            cc == correct@.classes,
            cc.len() == correct.classes@.len(),
            sc == student@.classes,
            mistakes@.map_values(|m: Mistake| m@) == missing_classes_upto(cc, sc, i as int),
        decreases correct.classes@.len() - i,
    {
        let ghost prev = mistakes@.map_values(|m: Mistake| m@);
        proof {
            assert(cc[i as int] == correct.classes@[i as int]@);
        }
        let name = &correct.classes[i].name;
        if !class_named_before(&correct.classes, i, name.as_str()) && !class_named(
            &student.classes,
            name.as_str(),
        ) {
            proof {
                assert(cc.take(i as int) =~= correct.classes@.map_values(|c: Class| c@).take(
                    i as int,
                ));
            }
            mistakes.push(Mistake::missing_class(name.as_str()));
            proof {
                assert(mistakes@.map_values(|m: Mistake| m@) =~= prev.push(
                    crate::mistake::missing_class_v(cc[i as int].name),
                ));
            }
        } else {
            proof {
                assert(cc.take(i as int) =~= correct.classes@.map_values(|c: Class| c@).take(
                    i as int,
                ));
            }
        }
        i = i + 1;
        proof {
            assert(mistakes@.map_values(|m: Mistake| m@) =~= missing_classes_upto(
                cc,
                sc,
                i as int,
            ));
        }
    }
    let mut i: usize = 0;
    while i < student.classes.len()
        invariant
            i <= student.classes@.len(),
            cc == correct@.classes,
            sc == student@.classes,
            sc.len() == student.classes@.len(),
            mistakes@.map_values(|m: Mistake| m@) == missing_classes_upto(
                cc,
                sc,
                cc.len() as int,
            ) + extra_classes_upto(cc, sc, i as int),
        decreases student.classes@.len() - i,
    {
        let ghost prev = mistakes@.map_values(|m: Mistake| m@);
        proof {
            assert(sc[i as int] == student.classes@[i as int]@);
            assert(sc.take(i as int) =~= student.classes@.map_values(|c: Class| c@).take(i as int));
        }
        let name = &student.classes[i].name;
        if !class_named_before(&student.classes, i, name.as_str()) && !class_named(
            &correct.classes,
            name.as_str(),
        ) {
            let mut message = String::from_str("Class '");
            message.append(name.as_str());
            message.append("' is not present in the code but appears in your diagram.");
            let mut related_elements: Vec<String> = Vec::new();
            related_elements.push(name.clone());
            let m = Mistake { kind: MistakeKind::ExtraClass, message, related_elements };
            proof {
                assert(m@.related =~= seq![sc[i as int].name]);
                assert(m@.msg =~= extra_class_msg(sc[i as int].name));
            }
            mistakes.push(m);
            proof {
                assert(mistakes@.map_values(|x: Mistake| x@) =~= prev.push(m@));
            }
        }
        i = i + 1;
        proof {
            assert(mistakes@.map_values(|m: Mistake| m@) =~= missing_classes_upto(
                cc,
                sc,
                cc.len() as int,
            ) + extra_classes_upto(cc, sc, i as int));
        }
    }
    let ghost base2 = missing_classes_upto(cc, sc, cc.len() as int) + extra_classes_upto(
        cc,
        sc,
        sc.len() as int,
    );
    let mut i: usize = 0;
    while i < correct.relationships.len()
        invariant
            i <= correct.relationships@.len(),
            cr == correct@.rels,
            sr == student@.rels,
            cr.len() == correct.relationships@.len(),
            mistakes@.map_values(|m: Mistake| m@) == base2 + missing_rels_upto(cr, sr, i as int),
        decreases correct.relationships@.len() - i,
    {
        let ghost prev = mistakes@.map_values(|m: Mistake| m@);
        proof {
            assert(cr[i as int] == correct.relationships@[i as int]@);
        }
        let rel = &correct.relationships[i];
        if !rel_keyed_from(&correct.relationships, i + 1, rel.from.as_str(), rel.to.as_str())
            && !rel_keyed_from(&student.relationships, 0, rel.from.as_str(), rel.to.as_str()) {
            mistakes.push(Mistake::missing_relationship(rel.from.as_str(), rel.to.as_str()));
            proof {
                assert(mistakes@.map_values(|m: Mistake| m@) =~= prev.push(
                    crate::mistake::missing_relationship_v(cr[i as int].from, cr[i as int].to),
                ));
            }
        }
        i = i + 1;
        proof {
            assert(mistakes@.map_values(|m: Mistake| m@) =~= base2 + missing_rels_upto(
                cr,
                sr,
                i as int,
            ));
        }
    }
    let ghost base3 = base2 + missing_rels_upto(cr, sr, cr.len() as int);
    let mut i: usize = 0;
    while i < student.relationships.len()
        invariant
            i <= student.relationships@.len(),
            cr == correct@.rels,
            sr == student@.rels,
            sr.len() == student.relationships@.len(),
            mistakes@.map_values(|m: Mistake| m@) == base3 + extra_rels_upto(cr, sr, i as int),
        decreases student.relationships@.len() - i,
    {
        let ghost prev = mistakes@.map_values(|m: Mistake| m@);
        proof {
            assert(sr[i as int] == student.relationships@[i as int]@);
        }
        let rel = &student.relationships[i];
        if !rel_keyed_from(&student.relationships, i + 1, rel.from.as_str(), rel.to.as_str())
            && !rel_keyed_from(&correct.relationships, 0, rel.from.as_str(), rel.to.as_str()) {
            let mut message = String::from_str("Extra relationship from '");
            message.append(rel.from.as_str());
            message.append("' to '");
            message.append(rel.to.as_str());
            message.append("' appears in your diagram.");
            let mut related_elements: Vec<String> = Vec::new();
            related_elements.push(rel.from.clone());
            related_elements.push(rel.to.clone());
            let m = Mistake { kind: MistakeKind::ExtraRelationship, message, related_elements };
            proof {
                assert(m@.related =~= seq![sr[i as int].from, sr[i as int].to]);
                assert(m@.msg =~= extra_rel_msg(sr[i as int].from, sr[i as int].to));
            }
            mistakes.push(m);
            proof {
                assert(mistakes@.map_values(|x: Mistake| x@) =~= prev.push(m@));
            }
        }
        i = i + 1;
        proof {
            assert(mistakes@.map_values(|m: Mistake| m@) =~= base3 + extra_rels_upto(
                cr,
                sr,
                i as int,
            ));
        }
    }
    let ghost base4 = base3 + extra_rels_upto(cr, sr, sr.len() as int);
    let mut i: usize = 0;
    while i < correct.relationships.len()
        invariant
            i <= correct.relationships@.len(),
            cr == correct@.rels,
            sr == student@.rels,
            cr.len() == correct.relationships@.len(),
            mistakes@.map_values(|m: Mistake| m@) == base4 + wrong_kind_upto(cr, sr, i as int),
        decreases correct.relationships@.len() - i,
    {
        let ghost prev = mistakes@.map_values(|m: Mistake| m@);
        proof {
            assert(cr[i as int] == correct.relationships@[i as int]@);
        }
        let rel = &correct.relationships[i];
        if !rel_keyed_from(&correct.relationships, i + 1, rel.from.as_str(), rel.to.as_str()) {
            match last_rel(&student.relationships, rel.from.as_str(), rel.to.as_str()) {
                Some(srel) => {
                    if !kinds_equal(rel.kind, srel.kind) {
                        let mut message = String::from_str("Relationship between '");
                        message.append(rel.from.as_str());
                        message.append("' and '");
                        message.append(rel.to.as_str());
                        message.append("' should be ");
                        let kn = kind_name_exec(rel.kind);
                        message.append(kn.as_str());
                        message.append(", not ");
                        let kb = kind_name_exec(srel.kind);
                        message.append(kb.as_str());
                        message.append(".");
                        let mut related_elements: Vec<String> = Vec::new();
                        related_elements.push(rel.from.clone());
                        related_elements.push(rel.to.clone());
                        let m = Mistake {
                            kind: MistakeKind::WrongRelationshipType,
                            message,
                            related_elements,
                        };
                        proof {
                            assert(m@.related =~= seq![cr[i as int].from, cr[i as int].to]);
                            assert(m@.msg =~= wrong_kind_msg(cr[i as int], srel@));
                        }
                        mistakes.push(m);
                        proof {
                            assert(mistakes@.map_values(|x: Mistake| x@) =~= prev.push(m@));
                        }
                    }
                },
                None => {},
            }
        }
        i = i + 1;
        proof {
            assert(mistakes@.map_values(|m: Mistake| m@) =~= base4 + wrong_kind_upto(
                cr,
                sr,
                i as int,
            ));
        }
    }
    let ghost base5 = base4 + wrong_kind_upto(cr, sr, cr.len() as int);
    let mut i: usize = 0;
    while i < correct.classes.len()
        invariant
            i <= correct.classes@.len(),
            cc == correct@.classes,
            sc == student@.classes,
            cc.len() == correct.classes@.len(),
            mistakes@.map_values(|m: Mistake| m@) == base5 + missing_methods_upto(
                cc,
                sc,
                i as int,
            ),
        decreases correct.classes@.len() - i,
    {
        proof {
            assert(cc[i as int] == correct.classes@[i as int]@);
        }
        let cls = &correct.classes[i];
        let smethods: Vec<String> = match find_class(&student.classes, cls.name.as_str()) {
            Some(scls) => method_names(&scls.methods),
            None => Vec::new(),
        };
        let ghost smv = smethods@.map_values(|s: String| s@);
        proof {
            assert(smv =~= (match find_class_from(sc, 0, cc[i as int].name) {
                Some(x) => x.methods,
                None => Seq::<Seq<char>>::empty(),
            }));
        }
        let ghost base_in = mistakes@.map_values(|m: Mistake| m@);
        let mut j: usize = 0;
        while j < cls.methods.len()
            invariant
                j <= cls.methods@.len(),
                cc == correct@.classes,
                cc.len() == correct.classes@.len(),
                i < cc.len(),
                cc[i as int] == correct.classes@[i as int]@,
                cls == &correct.classes[i as int],
                smv == smethods@.map_values(|s: String| s@),
                smv.len() == smethods@.len(),
                cc[i as int].methods.len() == cls.methods@.len(),
                mistakes@.map_values(|m: Mistake| m@) == base_in + missing_methods_of(
                    cc[i as int],
                    smv,
                    j as int,
                ),
            decreases cls.methods@.len() - j,
        {
            let ghost prev = mistakes@.map_values(|m: Mistake| m@);
            proof {
                assert(cc[i as int].methods[j as int] == cls.methods@[j as int].name@);
            }
            let mname = &cls.methods[j].name;
            if !name_listed(&smethods, mname.as_str()) {
                mistakes.push(Mistake::missing_method(cls.name.as_str(), mname.as_str()));
                proof {
                    assert(mistakes@.map_values(|m: Mistake| m@) =~= prev.push(
                        missing_method_v(cc[i as int].name, cc[i as int].methods[j as int]),
                    ));
                }
            }
            j = j + 1;
            proof {
                assert(mistakes@.map_values(|m: Mistake| m@) =~= base_in + missing_methods_of(
                    cc[i as int],
                    smv,
                    j as int,
                ));
            }
        }
        i = i + 1;
        proof {
            assert(mistakes@.map_values(|m: Mistake| m@) =~= base5 + missing_methods_upto(
                cc,
                sc,
                i as int,
            ));
        }
    }
    proof {
        assert(mistakes@.map_values(|m: Mistake| m@) =~= spec_mistakes(correct@, student@));
    }
    mistakes
}

/// Whether two kinds are the same.
fn kinds_equal(a: RelationshipKind, b: RelationshipKind) -> (r: bool)
    ensures
        r == (a == b),
{
    a == b
}

/// The first class bearing this name.
fn find_class<'a>(cs: &'a Vec<Class>, name: &str) -> (r: Option<&'a Class>)
    ensures
        match r {
            Some(c) => find_class_from(cs@.map_values(|x: Class| x@), 0, name@) == Some(c@),
            None => find_class_from(cs@.map_values(|x: Class| x@), 0, name@) is None,
        },
{
    let ghost csv = cs@.map_values(|x: Class| x@);
    let mut i: usize = 0;
    while i < cs.len()
        invariant
            i <= cs@.len(),
            csv == cs@.map_values(|x: Class| x@),
            csv.len() == cs@.len(),
            find_class_from(csv, 0, name@) == find_class_from(csv, i as int, name@),
        decreases cs@.len() - i,
    {
        proof {
            assert(csv[i as int] == cs@[i as int]@);
        }
        if str_eq(cs[i].name.as_str(), name) {
            return Some(&cs[i]);
        }
        i = i + 1;
    }
    None
}

/// The method names of a drawn class, as fresh strings.
fn method_names(ms: &Vec<crate::model::Method>) -> (r: Vec<String>)
    ensures
        r@.map_values(|s: String| s@) == ms@.map_values(|m: crate::model::Method| m.name@),
{
    let mut out: Vec<String> = Vec::new();
    proof {
        assert(out@.map_values(|s: String| s@) =~= ms@.map_values(
            |m: crate::model::Method| m.name@,
        ).take(0));
    }
    let mut i: usize = 0;
    while i < ms.len()
        invariant
            i <= ms@.len(),
            out@.map_values(|s: String| s@) == ms@.map_values(
                |m: crate::model::Method| m.name@,
            ).take(i as int),
        decreases ms@.len() - i,
    {
        let ghost prev = out@.map_values(|s: String| s@);
        out.push(ms[i].name.clone());
        i = i + 1;
        proof {
            assert(out@.map_values(|s: String| s@) =~= prev.push(ms@[i - 1].name@));
            assert(prev.push(ms@[i - 1].name@) =~= ms@.map_values(
                |m: crate::model::Method| m.name@,
            ).take(i as int));
        }
    }
    proof {
        assert(ms@.map_values(|m: crate::model::Method| m.name@).take(ms@.len() as int)
            =~= ms@.map_values(|m: crate::model::Method| m.name@));
    }
    out
}

/// Whether the list holds this name.
fn name_listed(names: &Vec<String>, m: &str) -> (r: bool)
    ensures
        r == has_name_from(names@.map_values(|s: String| s@), 0, m@),
{
    let ghost nv = names@.map_values(|s: String| s@);
    let mut i: usize = 0;
    while i < names.len()
        invariant
            i <= names@.len(),
            nv == names@.map_values(|s: String| s@),
            nv.len() == names@.len(),
            has_name_from(nv, 0, m@) == has_name_from(nv, i as int, m@),
        decreases names@.len() - i,
    {
        proof {
            assert(nv[i as int] == names@[i as int]@);
        }
        if str_eq(names[i].as_str(), m) {
            return true;
        }
        i = i + 1;
    }
    false
}

} // verus!
