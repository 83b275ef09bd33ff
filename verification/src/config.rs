//! Server configuration: the table of configured models.
//!
//! A configuration maps model identifiers to launch information (executable
//! path and argument list) and names a default model.  The table is kept
//! strictly sorted by identifier, so identifiers are unique and the list of
//! configured identifiers handed to clients is already in order.

use vstd::prelude::*;

verus! {

/// How one configured model is launched: model file path and extra arguments.
#[derive(Debug)]
pub struct ModelConfig {
    pub path: String,
    pub args: Vec<String>,
}

/// Mathematical model of a [`ModelConfig`].
#[verifier::ext_equal]
pub struct ModelConfigView {
    pub path: Seq<char>,
    pub args: Seq<Seq<char>>,
}

impl View for ModelConfig {
    type V = ModelConfigView;

    open spec fn view(&self) -> ModelConfigView {
        ModelConfigView { path: self.path@, args: self.args@.map_values(|s: String| s@) }
    }
}

/// Copies a vector of strings, keeping its contents.
pub fn clone_strings(v: &Vec<String>) -> (res: Vec<String>)
    ensures
        res@.map_values(|s: String| s@) == v@.map_values(|s: String| s@),
{
    let res = v.clone();
    proof {
        assert forall|i: int| 0 <= i < v@.len() implies res@[i]@ == v@[i]@ by {
            assert(cloned::<String>(v@[i], res@[i]));
        }
        assert(res@.map_values(|s: String| s@) =~= v@.map_values(|s: String| s@));
    }
    res
}

impl Clone for ModelConfig {
    fn clone(&self) -> (res: Self)
        ensures
            res@ == self@,
    {
        ModelConfig { path: self.path.clone(), args: clone_strings(&self.args) }
    }
}

/// One row of the model table: identifier and launch information.
#[derive(Debug)]
pub struct ModelEntry {
    pub name: String,
    pub config: ModelConfig,
}

/// Mathematical model of a [`ModelEntry`].
#[verifier::ext_equal]
pub struct ModelEntryView {
    pub name: Seq<char>,
    pub config: ModelConfigView,
}

impl View for ModelEntry {
    type V = ModelEntryView;

    open spec fn view(&self) -> ModelEntryView {
        ModelEntryView { name: self.name@, config: self.config@ }
    }
}

/// Lexicographic order on identifiers, by Unicode scalar value.
pub open spec fn lex_lt(a: Seq<char>, b: Seq<char>) -> bool
    decreases a.len(),
{
    if b.len() == 0 {
        false
    } else if a.len() == 0 {
        true
    } else if (a[0] as u32) < (b[0] as u32) {
        true
    } else if (b[0] as u32) < (a[0] as u32) {
        false
    } else {
        lex_lt(a.drop_first(), b.drop_first())
    }
}

/// The order is irreflexive.
pub proof fn lemma_lex_lt_irrefl(a: Seq<char>)
    ensures
        !lex_lt(a, a),
    decreases a.len(),
{
    if a.len() > 0 {
        lemma_lex_lt_irrefl(a.drop_first());
    }
}

/// Any two identifiers are ordered one way or the other, or are equal.
pub proof fn lemma_lex_lt_trichotomy(a: Seq<char>, b: Seq<char>)
    ensures
        lex_lt(a, b) || lex_lt(b, a) || a == b,
    decreases a.len(),
{
    if a.len() > 0 && b.len() > 0 && !lex_lt(a, b) && !lex_lt(b, a) {
        lemma_lex_lt_trichotomy(a.drop_first(), b.drop_first());
        if a.drop_first() == b.drop_first() {
            vstd::utf8::char_u32_cast(a[0], a[0] as u32);
            vstd::utf8::char_u32_cast(b[0], b[0] as u32);
            assert(a[0] == b[0]);
            assert(a.drop_first().len() == b.drop_first().len());
            assert(a.len() == b.len());
            assert forall|k: int| 0 <= k < a.len() implies a[k] == b[k] by {
                if k > 0 {
                    assert(a[k] == a.drop_first()[k - 1]);
                    assert(b[k] == b.drop_first()[k - 1]);
                    assert(a.drop_first()[k - 1] == b.drop_first()[k - 1]);
                }
            }
            assert(a =~= b);
        }
    } else if a.len() == 0 && b.len() == 0 {
        assert(a =~= b);
    }
}

/// The order is transitive.
pub proof fn lemma_lex_lt_trans(a: Seq<char>, b: Seq<char>, c: Seq<char>)
    requires
        lex_lt(a, b),
        lex_lt(b, c),
    ensures
        lex_lt(a, c),
    decreases a.len(),
{
    if a.len() > 0 && b.len() > 0 && c.len() > 0 {
        if (a[0] as u32) == (b[0] as u32) && (b[0] as u32) == (c[0] as u32) {
            lemma_lex_lt_trans(a.drop_first(), b.drop_first(), c.drop_first());
        }
    }
}

/// Ordered identifiers are distinct.
pub proof fn lemma_lex_lt_ne(a: Seq<char>, b: Seq<char>)
    requires
        lex_lt(a, b),
    ensures
        a != b,
{
    lemma_lex_lt_irrefl(a);
}

/// Compares two identifiers; the result agrees with [`lex_lt`].
pub fn str_lt(a: &str, b: &str) -> (r: bool)
    ensures
        r == lex_lt(a@, b@),
{
    let alen = a.unicode_len();
    let blen = b.unicode_len();
    let mut i: usize = 0;
    proof {
        assert(a@.skip(0) =~= a@);
        assert(b@.skip(0) =~= b@);
    }
    loop
        invariant
            i <= alen,
            i <= blen,
            alen == a@.len(),
            blen == b@.len(),
            lex_lt(a@, b@) == lex_lt(a@.skip(i as int), b@.skip(i as int)),
        decreases alen - i,
    {
        if i == alen || i == blen {
            proof {
                assert(a@.skip(i as int).len() == 0 || b@.skip(i as int).len() == 0);
            }
            return i == alen && i < blen;
        }
        let ca = a.get_char(i);
        let cb = b.get_char(i);
        if (ca as u32) < (cb as u32) {
            return true;
        }
        if (cb as u32) < (ca as u32) {
            return false;
        }
        proof {
            assert(a@.skip(i as int).drop_first() =~= a@.skip(i as int + 1));
            assert(b@.skip(i as int).drop_first() =~= b@.skip(i as int + 1));
        }
        i = i + 1;
    }
}

/// The model table and the default model identifier.
#[derive(Debug)]
pub struct AppConfig {
    pub models: Vec<ModelEntry>,
    pub default: String,
}

/// Mathematical model of an [`AppConfig`].
#[verifier::ext_equal]
pub struct ConfigView {
    pub models: Seq<ModelEntryView>,
    pub default: Seq<char>,
}

impl View for AppConfig {
    type V = ConfigView;

    open spec fn view(&self) -> ConfigView {
        ConfigView {
            models: self.models@.map_values(|e: ModelEntry| e@),
            default: self.default@,
        }
    }
}

/// The launch information of the first entry named `name`, if any.
pub open spec fn lookup_spec(models: Seq<ModelEntryView>, name: Seq<char>) -> Option<
    ModelConfigView,
>
    decreases models.len(),
{
    if models.len() == 0 {
        None
    } else if models[0].name == name {
        Some(models[0].config)
    } else {
        lookup_spec(models.drop_first(), name)
    }
}

/// The position at which `name` belongs in the sorted table: the first index
/// whose entry is not below `name`.
pub open spec fn insert_pos_spec(models: Seq<ModelEntryView>, name: Seq<char>) -> int
    decreases models.len(),
{
    if models.len() == 0 {
        0
    } else if lex_lt(models[0].name, name) {
        1 + insert_pos_spec(models.drop_first(), name)
    } else {
        0
    }
}

impl AppConfig {
    /// The table is strictly sorted by identifier, so identifiers are unique.
    pub open spec fn wf(self) -> bool {
        forall|i: int, j: int|
            0 <= i < j < self@.models.len() ==> lex_lt(
                #[trigger] self@.models[i].name,
                #[trigger] self@.models[j].name,
            )
    }

    /// An empty table under the given default identifier.
    pub fn new(default: String) -> (c: AppConfig)
        ensures
            c.wf(),
            c@.models == Seq::<ModelEntryView>::empty(),
            c@.default == default@,
    {
        let c = AppConfig { models: Vec::new(), default };
        proof {
            assert(c@.models =~= Seq::<ModelEntryView>::empty());
        }
        c
    }

    /// Inserts one model at its sorted position.  Returns false, changing
    /// nothing, when the identifier is already configured.
    pub fn add_model(&mut self, name: String, config: ModelConfig) -> (added: bool)
        requires
            old(self).wf(),
        ensures
            final(self).wf(),
            final(self)@.default == old(self)@.default,
            added == (lookup_spec(old(self)@.models, name@) is None),
            !added ==> final(self)@ == old(self)@,
            added ==> final(self)@.models == old(self)@.models.insert(
                insert_pos_spec(old(self)@.models, name@),
                ModelEntryView { name: name@, config: config@ },
            ),
    {
        let ghost ms = self@.models;
        let n = self.models.len();
        let mut i: usize = 0;
        proof {
            assert(ms.skip(0) =~= ms);
        }
        while i < n && str_lt(self.models[i].name.as_str(), name.as_str())
            invariant
                i <= n,
                n == self.models.len(),
                self == old(self),
                ms == self@.models,
                forall|k: int| 0 <= k < i ==> lex_lt(#[trigger] ms[k].name, name@),
                insert_pos_spec(ms, name@) == i + insert_pos_spec(ms.skip(i as int), name@),
            decreases n - i,
        {
            proof {
                assert(ms.skip(i as int)[0] == ms[i as int]);
                assert(ms.skip(i as int).drop_first() =~= ms.skip(i as int + 1));
            }
            i = i + 1;
        }
        proof {
            if i < n {
                assert(ms.skip(i as int)[0] == ms[i as int]);
            }
            assert(insert_pos_spec(ms, name@) == i as int);
        }
        if i < n && !str_lt(name.as_str(), self.models[i].name.as_str()) {
            proof {
                lemma_lex_lt_trichotomy(ms[i as int].name, name@);
                assert(ms[i as int].name == name@);
                lemma_lookup_some_iff(ms, name@);
            }
            return false;
        }
        proof {
            assert forall|k: int| 0 <= k < ms.len() implies ms[k].name != name@ by {
                if k < i {
                    lemma_lex_lt_ne(ms[k].name, name@);
                } else if k == i {
                    lemma_lex_lt_ne(name@, ms[k].name);
                } else {
                    assert(lex_lt(ms[i as int].name, ms[k].name));
                    lemma_lex_lt_trans(name@, ms[i as int].name, ms[k].name);
                    lemma_lex_lt_ne(name@, ms[k].name);
                }
            }
            lemma_lookup_some_iff(ms, name@);
        }
        let ghost e = ModelEntryView { name: name@, config: config@ };
        self.models.insert(i, ModelEntry { name, config });
        proof {
            assert(final(self)@.models =~= ms.insert(i as int, e));
            let ms2 = final(self)@.models;
            assert forall|p: int, q: int| 0 <= p < q < ms2.len() implies lex_lt(
                ms2[p].name,
                ms2[q].name,
            ) by {
                if p < i && q == i {
                } else if p == i && q > i {
                    if q - 1 > i {
                        lemma_lex_lt_trans(e.name, ms[i as int].name, ms[q - 1].name);
                    }
                } else if p < i && q > i {
                    assert(lex_lt(ms[p].name, ms[q - 1].name));
                } else if q < i {
                    assert(lex_lt(ms[p].name, ms[q].name));
                } else if p > i {
                    assert(lex_lt(ms[p - 1].name, ms[q - 1].name));
                }
            }
        }
        true
    }

    /// The launch information configured under `name`, if any.
    pub fn lookup(&self, name: &String) -> (r: Option<&ModelConfig>)
        ensures
            match r {
                Some(c) => lookup_spec(self@.models, name@) == Some(c@),
                None => lookup_spec(self@.models, name@) is None,
            },
    {
        let ghost ms = self@.models;
        let n = self.models.len();
        let mut i: usize = 0;
        proof {
            assert(ms.skip(0) =~= ms);
        }
        while i < n
            invariant
                i <= n,
                n == self.models.len(),
                ms == self@.models,
                lookup_spec(ms, name@) == lookup_spec(ms.skip(i as int), name@),
            decreases n - i,
        {
            proof {
                assert(ms.skip(i as int)[0] == ms[i as int]);
            }
            if self.models[i].name == *name {
                return Some(&self.models[i].config);
            }
            proof {
                assert(ms.skip(i as int).drop_first() =~= ms.skip(i as int + 1));
            }
            i = i + 1;
        }
        None
    }

    /// The configured identifiers, in table order (sorted when `wf` holds).
    pub fn model_names(&self) -> (names: Vec<String>)
        ensures
            names@.map_values(|s: String| s@) == self@.models.map_values(
                |e: ModelEntryView| e.name,
            ),
    {
        let n = self.models.len();
        let mut names: Vec<String> = Vec::new();
        let mut i: usize = 0;
        while i < n
            invariant
                i <= n,
                n == self.models.len(),
                names@.len() == i,
                forall|k: int| 0 <= k < i ==> #[trigger] names@[k]@ == self@.models[k].name,
            decreases n - i,
        {
            names.push(self.models[i].name.clone());
            i = i + 1;
        }
        proof {
            assert(names@.map_values(|s: String| s@) =~= self@.models.map_values(
                |e: ModelEntryView| e.name,
            ));
        }
        names
    }
}

/// An identifier is found by [`lookup_spec`] exactly when some entry bears it.
pub proof fn lemma_lookup_some_iff(models: Seq<ModelEntryView>, name: Seq<char>)
    ensures
        (lookup_spec(models, name) is Some) <==> exists|j: int|
            0 <= j < models.len() && #[trigger] models[j].name == name,
    decreases models.len(),
{
    if models.len() > 0 {
        lemma_lookup_some_iff(models.drop_first(), name);
        if models[0].name != name {
            if lookup_spec(models, name) is Some {
                let j = choose|j: int|
                    0 <= j < models.drop_first().len() && #[trigger] models.drop_first()[j].name
                        == name;
                assert(models[j + 1].name == name);
            }
            if exists|j: int| 0 <= j < models.len() && #[trigger] models[j].name == name {
                let j = choose|j: int| 0 <= j < models.len() && #[trigger] models[j].name == name;
                assert(models.drop_first()[j - 1].name == name);
            }
        }
    }
}

} // verus!
