use vstd::prelude::*;

verus! {

/// Mathematical model of a value: a string scalar or an ordered group of
/// entries whose keys may repeat.
pub enum ValueModel {
    Str(Seq<char>),
    Obj(Seq<(Seq<char>, ValueModel)>),
}

/// Mathematical model of a document: its single root key and root value.
pub struct VdfModel {
    pub key: Seq<char>,
    pub value: ValueModel,
}

/// A value of the document tree.
#[derive(Debug)]
pub enum Value {
    Str(String),
    Obj(Vec<(String, Value)>),
}

/// A whole document: one root key bound to one value.
#[derive(Debug)]
pub struct Vdf {
    pub key: String,
    pub value: Value,
}

pub open spec fn value_model(v: Value) -> ValueModel
    decreases v, 1nat,
{
    match v {
        Value::Str(s) => ValueModel::Str(s@),
        Value::Obj(es) => ValueModel::Obj(entries_model(es@)),
    }
}

pub open spec fn entries_model(es: Seq<(String, Value)>) -> Seq<(Seq<char>, ValueModel)>
    decreases es, 0nat,
{
    if es.len() == 0 {
        Seq::empty()
    } else {
        entries_model(es.drop_last()).push((es.last().0@, value_model(es.last().1)))
    }
}

impl Vdf {
    pub open spec fn model(&self) -> VdfModel {
        VdfModel { key: self.key@, value: value_model(self.value) }
    }
}

/// The values bound to `k` among a group's entries, in stored order.
pub open spec fn values_for(es: Seq<(Seq<char>, ValueModel)>, k: Seq<char>) -> Seq<ValueModel>
    decreases es.len(),
{
    if es.len() == 0 {
        Seq::empty()
    } else {
        values_for(es.drop_last(), k) + (if es.last().0 == k {
            seq![es.last().1]
        } else {
            Seq::empty()
        })
    }
}

/// The values bound to `k` in a value: those of a group's matching
/// entries, none for a scalar.
pub open spec fn lookup(v: ValueModel, k: Seq<char>) -> Seq<ValueModel> {
    match v {
        ValueModel::Obj(es) => values_for(es, k),
        ValueModel::Str(_) => Seq::empty(),
    }
}

impl Value {
    /// Every value bound to `key` in this group, in stored order: what a
    /// field read as a sequence receives. A scalar binds nothing.
    pub fn get_all(&self, key: &String) -> (r: Vec<&Value>)
        ensures
            r@.map_values(|v: &Value| value_model(*v)) == lookup(value_model(*self), key@),
    {
        let mut out: Vec<&Value> = Vec::new();
        match self {
            Value::Str(_) => {
                assert(out@.map_values(|v: &Value| value_model(*v)) =~= Seq::<ValueModel>::empty());
            },
            Value::Obj(es) => {
                let mut i: usize = 0;
                assert(es@.subrange(0, 0) =~= Seq::<(String, Value)>::empty());
                assert(out@.map_values(|v: &Value| value_model(*v)) =~= Seq::<ValueModel>::empty());
                while i < es.len()
                    invariant
                        i <= es.len(),
                        *self == Value::Obj(*es),
                        out@.map_values(|v: &Value| value_model(*v)) == values_for(
                            entries_model(es@.subrange(0, i as int)),
                            key@,
                        ),
                    decreases es.len() - i,
                {
                    let ghost before = out@.map_values(|v: &Value| value_model(*v));
                    let ghost e = es@[i as int];
                    let ghost m = entries_model(es@.subrange(0, i as int));
                    let matched = es[i].0 == *key;
                    if matched {
                        out.push(&es[i].1);
                    }
                    proof {
                        assert(es@.subrange(0, i + 1).drop_last() =~= es@.subrange(0, i as int));
                        let m2 = entries_model(es@.subrange(0, i + 1));
                        assert(m2 == m.push((e.0@, value_model(e.1))));
                        assert(m2.drop_last() =~= m);
                        if matched {
                            assert(out@.map_values(|v: &Value| value_model(*v)) =~= before.push(value_model(e.1)));
                        } else {
                            assert(out@.map_values(|v: &Value| value_model(*v)) =~= before);
                        }
                        assert(values_for(m2, key@) =~= out@.map_values(|v: &Value| value_model(*v)));
                    }
                    i = i + 1;
                }
                assert(es@.subrange(0, es@.len() as int) =~= es@);
            },
        }
        out
    }

    /// The first value bound to `key` in this group: what a field read as
    /// a scalar or a nested group receives.
    pub fn get(&self, key: &String) -> (r: Option<&Value>)
        ensures
            r is None <==> lookup(value_model(*self), key@).len() == 0,
            r is Some ==> value_model(*r->Some_0) == lookup(value_model(*self), key@)[0],
    {
        let all = self.get_all(key);
        if all.len() > 0 {
            proof {
                assert(all@.map_values(|v: &Value| value_model(*v))[0] == value_model(*all@[0]));
            }
            Some(all[0])
        } else {
            None
        }
    }
}

} // verus!
