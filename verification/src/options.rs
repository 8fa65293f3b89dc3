use vstd::prelude::*;

verus! {

/// First-match lookup among `(name, value)` pairs, scanning from index `i`.
pub open spec fn lookup_from<V>(pairs: Seq<(Seq<char>, V)>, name: Seq<char>, i: int) -> Option<V>
    decreases pairs.len() - i,
{
    if i < 0 || i >= pairs.len() {
        None
    } else if pairs[i].0 == name {
        Some(pairs[i].1)
    } else {
        lookup_from(pairs, name, i + 1)
    }
}

/// The value of the first pair named `name`, if any.
///
/// Duplicate names are kept, not merged; lookup deliberately returns the
/// first match (first-write-wins).
pub open spec fn lookup<V>(pairs: Seq<(Seq<char>, V)>, name: Seq<char>) -> Option<V> {
    lookup_from(pairs, name, 0)
}

/// The `(name, value)` pairs read off an even-length token sequence in
/// encounter order: `t[0]` names `t[1]`, `t[2]` names `t[3]`, and so on.
pub open spec fn decoded_pairs(t: Seq<Seq<char>>) -> Seq<(Seq<char>, Seq<char>)> {
    Seq::new((t.len() / 2) as nat, |i: int| (t[2 * i], t[2 * i + 1]))
}

/// An ordered set of decoded request options.
///
/// The two columns run in parallel: `keys[i]` names `values[i]`. Duplicate
/// keys are appended, never merged.
pub struct OptionsArray {
    pub keys: Vec<String>,
    pub values: Vec<String>,
}

impl View for OptionsArray {
    type V = Seq<(Seq<char>, Seq<char>)>;

    open spec fn view(&self) -> Seq<(Seq<char>, Seq<char>)> {
        Seq::new(self.keys@.len(), |i: int| (self.keys@[i]@, self.values@[i]@))
    }
}

impl OptionsArray {
    /// Both columns hold one entry per decoded pair.
    pub open spec fn wf(&self) -> bool {
        self.keys@.len() == self.values@.len()
    }

    pub fn new() -> (r: Self)
        ensures
            r.wf(),
            r@ == Seq::<(Seq<char>, Seq<char>)>::empty(),
    {
        let r = OptionsArray { keys: Vec::new(), values: Vec::new() };
        proof {
            assert(r@ =~= Seq::<(Seq<char>, Seq<char>)>::empty());
        }
        r
    }

    pub fn insert(&mut self, key: &str, value: &str)
        requires
            old(self).wf(),
        ensures
            final(self).wf(),
            final(self)@ == old(self)@.push((key@, value@)),
    {
        self.keys.push(key.to_owned());
        self.values.push(value.to_owned());
        proof {
            assert(self@ =~= old(self)@.push((key@, value@)));
        }
    }

    /// The value of the first pair whose name equals `key`, if any.
    pub fn get(&self, key: &str) -> (r: Option<&String>)
        requires
            self.wf(),
        ensures
            match r {
                Some(v) => lookup(self@, key@) == Some(v@),
                None => lookup(self@, key@) is None,
            },
    {
        let k = key.to_owned();
        let mut i: usize = 0;
        while i < self.keys.len()
            invariant
                self.wf(),
                k@ == key@,
                i <= self.keys@.len(),
                lookup(self@, key@) == lookup_from(self@, key@, i as int),
            decreases self.keys@.len() - i,
        {
            if k == self.keys[i] {
                return Some(&self.values[i]);
            }
            i += 1;
        }
        None
    }

    /// Does some pair carry this name?
    pub fn contains_key(&self, key: &str) -> (r: bool)
        requires
            self.wf(),
        ensures
            r == (lookup(self@, key@) is Some),
    {
        self.get(key).is_some()
    }
}

/// Decodes a flat token sequence into request options.
///
/// The tokens pair up in encounter order; an odd-length sequence is refused
/// outright (`None`), never decoded partially.
pub fn create_options_map(tokens: &Vec<String>) -> (r: Option<OptionsArray>)
    ensures
        r is None <==> tokens@.len() % 2 != 0,
        r matches Some(oa) ==> oa.wf() && oa@ == decoded_pairs(tokens.deep_view()) && oa@.len()
            == tokens@.len() / 2,
{
    if tokens.len() % 2 != 0 {
        return None;
    }
    let ghost t = tokens.deep_view();
    let mut options_array = OptionsArray::new();
    let mut i: usize = 0;
    while i < tokens.len()
        invariant
            options_array.wf(),
            t == tokens.deep_view(),
            tokens@.len() % 2 == 0,
            i % 2 == 0,
            i <= tokens@.len(),
            options_array@ == decoded_pairs(t).subrange(0, i as int / 2),
        decreases tokens@.len() - i,
    {
        assert(i + 1 < tokens@.len());
        options_array.insert(tokens[i].as_str(), tokens[i + 1].as_str());
        proof {
            assert(options_array@ =~= decoded_pairs(t).subrange(0, (i + 2) as int / 2));
        }
        i += 2;
    }
    proof {
        assert(options_array@ =~= decoded_pairs(t));
    }
    Some(options_array)
}

} // verus!
