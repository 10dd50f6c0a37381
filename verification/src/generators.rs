//! Generators: rules for synthesizing concrete values at paths when an
//! example is materialized. Generation is a pure function of the registry,
//! the example and a frozen context; randomness and the clock enter only
//! through the context a caller supplies.

use vstd::prelude::*;
use crate::json::{clone_entries, jdata_of, obj_entries_data, obj_get_data, obj_get_from, JsonData, JsonNum, JsonValue, NumData};
use crate::path_exp::{PathExpression, PathToken, TokenData};
use crate::strings::{fixed_digits, str_concat, str_eq, u64_fixed_dec};

verus! {

/// The categories a generator can apply to.
#[derive(PartialEq, Eq, Structural, Debug, Clone, Copy)]
pub enum GeneratorCategory {
    /// Generators on the body.
    Body,
    /// Generators on headers.
    Header,
    /// Generators on the request path.
    Path,
    /// Generators on query parameters.
    Query,
    /// Generators on the response status.
    Status,
    /// Generators on message metadata.
    Metadata,
}

/// A generator description.
#[derive(Debug)]
pub enum Generator {
    /// A random integer in the inclusive range.
    RandomInt(i32, i32),
    /// A random string of the given length.
    RandomString(u16),
    /// A random decimal with the given number of digits.
    RandomDecimal(u16),
    /// A random boolean.
    RandomBoolean,
    /// A random UUID.
    Uuid,
    /// Today's date, with an optional format.
    Date(Option<String>),
    /// The current time, with an optional format.
    Time(Option<String>),
    /// The current date and time, with an optional format.
    DateTime(Option<String>),
    /// A value taken from the provider-state parameters by key.
    ProviderStateGenerator(String),
    /// The running mock server's base URL (example and regex to transform).
    MockServerURL(String, String),
}

/// Spec-level mirror of `Generator`.
pub enum GenData {
    /// A random integer in the inclusive range.
    RandomInt(i32, i32),
    /// A random string of the given length.
    RandomString(u16),
    /// A random decimal with the given number of digits.
    RandomDecimal(u16),
    /// A random boolean.
    RandomBoolean,
    /// A random UUID.
    Uuid,
    /// Today's date, with an optional format.
    Date(Option<Seq<char>>),
    /// The current time, with an optional format.
    Time(Option<Seq<char>>),
    /// The current date and time, with an optional format.
    DateTime(Option<Seq<char>>),
    /// A value taken from the provider-state parameters by key.
    ProviderStateGenerator(Seq<char>),
    /// The running mock server's base URL (example and regex to transform).
    MockServerURL(Seq<char>, Seq<char>),
}

impl View for Generator {
    type V = GenData;

    open spec fn view(&self) -> GenData {
        match self {
            Generator::RandomInt(a, b) => GenData::RandomInt(*a, *b),
            Generator::RandomString(n) => GenData::RandomString(*n),
            Generator::RandomDecimal(n) => GenData::RandomDecimal(*n),
            Generator::RandomBoolean => GenData::RandomBoolean,
            Generator::Uuid => GenData::Uuid,
            Generator::Date(f) => GenData::Date(
                match f {
                    Some(s) => Some(s@),
                    None => None,
                },
            ),
            Generator::Time(f) => GenData::Time(
                match f {
                    Some(s) => Some(s@),
                    None => None,
                },
            ),
            Generator::DateTime(f) => GenData::DateTime(
                match f {
                    Some(s) => Some(s@),
                    None => None,
                },
            ),
            Generator::ProviderStateGenerator(k) => GenData::ProviderStateGenerator(k@),
            Generator::MockServerURL(e, r) => GenData::MockServerURL(e@, r@),
        }
    }
}

/// The external context generation consults, frozen by the caller: the
/// provider-state parameters, the mock server's base URL, a random seed and
/// the current time rendered as text.
#[derive(Debug)]
pub struct GenContext {
    /// Provider-state parameters.
    pub state_params: Vec<(String, JsonValue)>,
    /// The running mock server's base URL.
    pub base_url: String,
    /// The random source, frozen to a seed.
    pub seed: u64,
    /// Today's date as text.
    pub now_date: String,
    /// The current time as text.
    pub now_time: String,
    /// The current date and time as text.
    pub now_datetime: String,
}

/// Spec-level mirror of `GenContext`.
pub struct CtxData {
    /// Provider-state parameters.
    pub state_params: Seq<(Seq<char>, JsonData)>,
    /// The running mock server's base URL.
    pub base_url: Seq<char>,
    /// The random source, frozen to a seed.
    pub seed: u64,
    /// Today's date as text.
    pub now_date: Seq<char>,
    /// The current time as text.
    pub now_time: Seq<char>,
    /// The current date and time as text.
    pub now_datetime: Seq<char>,
}

impl View for GenContext {
    type V = CtxData;

    open spec fn view(&self) -> CtxData {
        CtxData {
            state_params: obj_entries_data(self.state_params@),
            base_url: self.base_url@,
            seed: self.seed,
            now_date: self.now_date@,
            now_time: self.now_time@,
            now_datetime: self.now_datetime@,
        }
    }
}

/// The integer a seed yields in an inclusive range.
pub open spec fn gen_int_value(min: i32, max: i32, seed: u64) -> int {
    if max >= min {
        min + (seed as int) % (max as int - min as int + 1)
    } else {
        min as int
    }
}

/// A JSON number for a mathematical integer.
pub open spec fn num_data_of_int(v: int) -> JsonData {
    if v >= 0 {
        JsonData::Num(NumData::U(v as u64))
    } else {
        JsonData::Num(NumData::I(v as i64))
    }
}

/// The UUID-shaped text a seed yields.
pub open spec fn uuid_text(seed: u64) -> Seq<char> {
    fixed_digits(seed as nat, 8) + "-"@ + fixed_digits((seed / 7) as nat, 4) + "-4"@
        + fixed_digits((seed / 11) as nat, 3) + "-8"@ + fixed_digits((seed / 13) as nat, 3) + "-"@
        + fixed_digits((seed / 17) as nat, 12)
}

/// The decimal text a seed yields: a zero, a point, then the digits.
pub open spec fn decimal_text(seed: u64, digits: u16) -> Seq<char> {
    "0."@ + fixed_digits(
        seed as nat,
        if digits == 0 {
            1nat
        } else {
            digits as nat
        },
    )
}

/// The value a generator produces from a frozen context, given the example
/// it replaces (kept when a provider-state key is absent).
pub open spec fn generated_data(g: GenData, ctx: CtxData, example: JsonData) -> JsonData {
    match g {
        GenData::RandomInt(min, max) => num_data_of_int(gen_int_value(min, max, ctx.seed)),
        GenData::RandomString(len) => JsonData::Str(fixed_digits(ctx.seed as nat, len as nat)),
        GenData::RandomDecimal(d) => JsonData::Num(NumData::Dec(decimal_text(ctx.seed, d))),
        GenData::RandomBoolean => JsonData::Bool(ctx.seed % 2 == 1),
        GenData::Uuid => JsonData::Str(uuid_text(ctx.seed)),
        GenData::Date(_) => JsonData::Str(ctx.now_date),
        GenData::Time(_) => JsonData::Str(ctx.now_time),
        GenData::DateTime(_) => JsonData::Str(ctx.now_datetime),
        GenData::ProviderStateGenerator(key) => match obj_get_data(ctx.state_params, key) {
            Some(v) => v,
            None => example,
        },
        GenData::MockServerURL(_, _) => JsonData::Str(ctx.base_url),
    }
}

/// Produces a generator's value from a frozen context.
pub fn generate_value(g: &Generator, ctx: &GenContext, example: &JsonValue) -> (r: JsonValue)
    ensures
        r@ == generated_data(g@, ctx@, example@),
{
    match g {
        Generator::RandomInt(min, max) => {
            if *max >= *min {
                let span: u64 = ((*max as i64) - (*min as i64) + 1) as u64;
                let offset: u64 = ctx.seed % span;
                let v: i64 = (*min as i64) + (offset as i64);
                if v >= 0 {
                    JsonValue::Num(JsonNum::U(v as u64))
                } else {
                    JsonValue::Num(JsonNum::I(v))
                }
            } else {
                if *min >= 0 {
                    JsonValue::Num(JsonNum::U(*min as u64))
                } else {
                    JsonValue::Num(JsonNum::I(*min as i64))
                }
            }
        },
        Generator::RandomString(len) => JsonValue::Str(u64_fixed_dec(ctx.seed, *len as usize)),
        Generator::RandomDecimal(d) => {
            let width: usize = if *d == 0 {
                1
            } else {
                *d as usize
            };
            let digits = u64_fixed_dec(ctx.seed, width);
            JsonValue::Num(JsonNum::Dec(str_concat("0.", digits.as_str())))
        },
        Generator::RandomBoolean => JsonValue::Bool(ctx.seed % 2 == 1),
        Generator::Uuid => {
            let p1 = u64_fixed_dec(ctx.seed, 8);
            let p2 = u64_fixed_dec(ctx.seed / 7, 4);
            let p3 = u64_fixed_dec(ctx.seed / 11, 3);
            let p4 = u64_fixed_dec(ctx.seed / 13, 3);
            let p5 = u64_fixed_dec(ctx.seed / 17, 12);
            let mut out = str_concat(p1.as_str(), "-");
            out = str_concat(out.as_str(), p2.as_str());
            out = str_concat(out.as_str(), "-4");
            out = str_concat(out.as_str(), p3.as_str());
            out = str_concat(out.as_str(), "-8");
            out = str_concat(out.as_str(), p4.as_str());
            out = str_concat(out.as_str(), "-");
            out = str_concat(out.as_str(), p5.as_str());
            proof {
                assert(out@ =~= uuid_text(ctx.seed));
            }
            JsonValue::Str(out)
        },
        Generator::Date(_) => JsonValue::Str(ctx.now_date.clone()),
        Generator::Time(_) => JsonValue::Str(ctx.now_time.clone()),
        Generator::DateTime(_) => JsonValue::Str(ctx.now_datetime.clone()),
        Generator::ProviderStateGenerator(key) => {
            let ghost params = ctx@.state_params;
            let mut i: usize = 0;
            while i < ctx.state_params.len()
                invariant
                    g@ == GenData::ProviderStateGenerator(key@),
                    params == ctx@.state_params,
                    params.len() == ctx.state_params@.len(),
                    i <= ctx.state_params@.len(),
                    obj_get_from(params, key@, 0) == obj_get_from(params, key@, i as int),
                decreases ctx.state_params@.len() - i,
            {
                if str_eq(ctx.state_params[i].0.as_str(), key.as_str()) {
                    proof {
                        assert(params[i as int] == (
                            ctx.state_params@[i as int].0@,
                            jdata_of(ctx.state_params@[i as int].1),
                        ));
                    }
                    return ctx.state_params[i].1.clone();
                }
                i = i + 1;
            }
            example.clone()
        },
        Generator::MockServerURL(_, _) => JsonValue::Str(ctx.base_url.clone()),
    }
}

/// The tree with the value at `path` (from segment `pi` on) replaced by what
/// the generator produces; paths that lead nowhere leave the tree unchanged.
pub open spec fn replace_data(d: JsonData, path: Seq<TokenData>, g: GenData, ctx: CtxData) -> JsonData
    decreases path.len(),
{
    if path.len() == 0 {
        generated_data(g, ctx, d)
    } else {
        match d {
            JsonData::Obj(es) => match path[0] {
                TokenData::Field(name) => JsonData::Obj(
                    Seq::new(
                        es.len(),
                        |i: int|
                            if 0 <= i < es.len() {
                                if es[i].0 == name {
                                    (es[i].0, replace_data(es[i].1, path.drop_first(), g, ctx))
                                } else {
                                    es[i]
                                }
                            } else {
                                (Seq::<char>::empty(), JsonData::Null)
                            },
                    ),
                ),
                TokenData::Star => JsonData::Obj(
                    Seq::new(
                        es.len(),
                        |i: int|
                            if 0 <= i < es.len() {
                                (es[i].0, replace_data(es[i].1, path.drop_first(), g, ctx))
                            } else {
                                (Seq::<char>::empty(), JsonData::Null)
                            },
                    ),
                ),
                _ => d,
            },
            JsonData::Arr(items) => match path[0] {
                TokenData::Index(k) => JsonData::Arr(
                    Seq::new(
                        items.len(),
                        |i: int|
                            if 0 <= i < items.len() {
                                if i == k {
                                    replace_data(items[i], path.drop_first(), g, ctx)
                                } else {
                                    items[i]
                                }
                            } else {
                                JsonData::Null
                            },
                    ),
                ),
                TokenData::Star => JsonData::Arr(
                    Seq::new(
                        items.len(),
                        |i: int|
                            if 0 <= i < items.len() {
                                replace_data(items[i], path.drop_first(), g, ctx)
                            } else {
                                JsonData::Null
                            },
                    ),
                ),
                TokenData::StarIndex => JsonData::Arr(
                    Seq::new(
                        items.len(),
                        |i: int|
                            if 0 <= i < items.len() {
                                replace_data(items[i], path.drop_first(), g, ctx)
                            } else {
                                JsonData::Null
                            },
                    ),
                ),
                _ => d,
            },
            _ => d,
        }
    }
}

/// Replaces the value at `path` (from segment `pi` on) by what the generator
/// produces there.
pub fn replace_at_path(
    v: &JsonValue,
    path: &PathExpression,
    pi: usize,
    g: &Generator,
    ctx: &GenContext,
) -> (r: JsonValue)
    requires
        pi <= path@.len(),
    ensures
        r@ == replace_data(v@, path@.skip(pi as int), g@, ctx@),
    decreases path@.len() - pi, *v,
{
    let ghost rest = path@.skip(pi as int);
    if pi == path.tokens.len() {
        proof {
            assert(rest.len() == 0);
        }
        generate_value(g, ctx, v)
    } else {
        let pin = pi + 1;
        proof {
            assert(rest[0] == path@[pi as int]);
            assert(rest.drop_first() =~= path@.skip(pin as int));
        }
        match (v, &path.tokens[pi]) {
            (JsonValue::Obj(es), PathToken::Field(name)) => {
                let mut out: Vec<(String, JsonValue)> = Vec::new();
                let mut i: usize = 0;
                while i < es.len()
                    invariant
                        *v == JsonValue::Obj(*es),
                        rest == path@.skip(pi as int),
                        pi < path@.len(),
                        pin == pi + 1,
                        pin <= path@.len(),
                        rest.drop_first() == path@.skip(pin as int),
                        path@[pi as int] == TokenData::Field(name@),
                        i <= es@.len(),
                        out@.len() == i,
                        forall|j: int|
                            0 <= j < i ==> out@[j].0@ == es@[j].0@ && jdata_of(out@[j].1) == (
                            if es@[j].0@ == name@ {
                                replace_data(jdata_of(es@[j].1), rest.drop_first(), g@, ctx@)
                            } else {
                                jdata_of(es@[j].1)
                            }),
                    decreases es@.len() - i,
                {
                    proof {
                        crate::json::lemma_obj_elem_smaller(*v, i as int);
                    }
                    let entry = &es[i];
                    if str_eq(entry.0.as_str(), name.as_str()) {
                        out.push((entry.0.clone(), replace_at_path(&entry.1, path, pin, g, ctx)));
                    } else {
                        out.push((entry.0.clone(), entry.1.clone()));
                    }
                    i = i + 1;
                }
                let r = JsonValue::Obj(out);
                proof {
                    assert(r@->Obj_0 =~= replace_data(v@, rest, g@, ctx@)->Obj_0);
                }
                r
            },
            (JsonValue::Obj(es), PathToken::Star) => {
                let mut out: Vec<(String, JsonValue)> = Vec::new();
                let mut i: usize = 0;
                while i < es.len()
                    invariant
                        *v == JsonValue::Obj(*es),
                        rest == path@.skip(pi as int),
                        pi < path@.len(),
                        pin == pi + 1,
                        pin <= path@.len(),
                        rest.drop_first() == path@.skip(pin as int),
                        path@[pi as int] == TokenData::Star,
                        i <= es@.len(),
                        out@.len() == i,
                        forall|j: int|
                            0 <= j < i ==> out@[j].0@ == es@[j].0@ && jdata_of(out@[j].1)
                                == replace_data(jdata_of(es@[j].1), rest.drop_first(), g@, ctx@),
                    decreases es@.len() - i,
                {
                    proof {
                        crate::json::lemma_obj_elem_smaller(*v, i as int);
                    }
                    let entry = &es[i];
                    out.push((entry.0.clone(), replace_at_path(&entry.1, path, pin, g, ctx)));
                    i = i + 1;
                }
                let r = JsonValue::Obj(out);
                proof {
                    assert(r@->Obj_0 =~= replace_data(v@, rest, g@, ctx@)->Obj_0);
                }
                r
            },
            (JsonValue::Arr(items), PathToken::Index(k)) => {
                let mut out: Vec<JsonValue> = Vec::new();
                let mut i: usize = 0;
                while i < items.len()
                    invariant
                        *v == JsonValue::Arr(*items),
                        rest == path@.skip(pi as int),
                        pi < path@.len(),
                        pin == pi + 1,
                        pin <= path@.len(),
                        rest.drop_first() == path@.skip(pin as int),
                        path@[pi as int] == TokenData::Index(*k),
                        i <= items@.len(),
                        out@.len() == i,
                        forall|j: int|
                            0 <= j < i ==> jdata_of(out@[j]) == (if j == *k as int {
                                replace_data(jdata_of(items@[j]), rest.drop_first(), g@, ctx@)
                            } else {
                                jdata_of(items@[j])
                            }),
                    decreases items@.len() - i,
                {
                    proof {
                        crate::json::lemma_arr_elem_smaller(*v, i as int);
                    }
                    if i == *k {
                        out.push(replace_at_path(&items[i], path, pin, g, ctx));
                    } else {
                        out.push(items[i].clone());
                    }
                    i = i + 1;
                }
                let r = JsonValue::Arr(out);
                proof {
                    assert(r@->Arr_0 =~= replace_data(v@, rest, g@, ctx@)->Arr_0);
                }
                r
            },
            (JsonValue::Arr(items), PathToken::Star) | (JsonValue::Arr(items), PathToken::StarIndex) => {
                let mut out: Vec<JsonValue> = Vec::new();
                let mut i: usize = 0;
                while i < items.len()
                    invariant
                        *v == JsonValue::Arr(*items),
                        rest == path@.skip(pi as int),
                        pi < path@.len(),
                        pin == pi + 1,
                        pin <= path@.len(),
                        rest.drop_first() == path@.skip(pin as int),
                        path@[pi as int] == TokenData::Star || path@[pi as int]
                            == TokenData::StarIndex,
                        i <= items@.len(),
                        out@.len() == i,
                        forall|j: int|
                            0 <= j < i ==> jdata_of(out@[j]) == replace_data(
                                jdata_of(items@[j]),
                                rest.drop_first(),
                                g@,
                                ctx@,
                            ),
                    decreases items@.len() - i,
                {
                    proof {
                        crate::json::lemma_arr_elem_smaller(*v, i as int);
                    }
                    out.push(replace_at_path(&items[i], path, pin, g, ctx));
                    i = i + 1;
                }
                let r = JsonValue::Arr(out);
                proof {
                    assert(r@->Arr_0 =~= replace_data(v@, rest, g@, ctx@)->Arr_0);
                }
                r
            },
            _ => v.clone(),
        }
    }
}

/// One registered generator: its category, its path, the description.
pub type GenEntryData = (GeneratorCategory, Seq<TokenData>, GenData);

/// The first registered entry with this category and path, scanning from `i`.
pub open spec fn gen_find_from(
    es: Seq<GenEntryData>,
    cat: GeneratorCategory,
    path: Seq<TokenData>,
    i: int,
) -> Option<int>
    decreases es.len() - i,
{
    if i < 0 || i >= es.len() {
        None
    } else if es[i].0 == cat && es[i].1 == path {
        Some(i)
    } else {
        gen_find_from(es, cat, path, i + 1)
    }
}

/// What registering a generator does: the last write to a key wins.
pub open spec fn add_gen_data(
    es: Seq<GenEntryData>,
    cat: GeneratorCategory,
    path: Seq<TokenData>,
    g: GenData,
) -> Seq<GenEntryData> {
    match gen_find_from(es, cat, path, 0) {
        Some(j) => es.update(j, (cat, path, g)),
        None => es.push((cat, path, g)),
    }
}

/// The example after every registered generator of the category replaced the
/// value at its path, in registration order, scanning from `i`.
pub open spec fn apply_from(
    es: Seq<GenEntryData>,
    cat: GeneratorCategory,
    d: JsonData,
    ctx: CtxData,
    i: int,
) -> JsonData
    decreases es.len() - i,
{
    if i < 0 || i >= es.len() {
        d
    } else {
        let d2 = if es[i].0 == cat {
            replace_data(d, es[i].1, es[i].2, ctx)
        } else {
            d
        };
        apply_from(es, cat, d2, ctx, i + 1)
    }
}

/// The registry: at most one generator per (category, path) key — the last
/// write wins.
#[derive(Debug)]
pub struct Generators {
    /// The registered generators.
    pub entries: Vec<(GeneratorCategory, PathExpression, Generator)>,
}

impl View for Generators {
    type V = Seq<GenEntryData>;

    open spec fn view(&self) -> Seq<GenEntryData> {
        Seq::new(
            self.entries@.len(),
            |i: int|
                if 0 <= i < self.entries@.len() {
                    (self.entries@[i].0, self.entries@[i].1@, self.entries@[i].2@)
                } else {
                    (GeneratorCategory::Body, Seq::empty(), GenData::Uuid)
                },
        )
    }
}

impl Generators {
    /// An empty registry.
    pub fn empty() -> (r: Generators)
        ensures
            r@ =~= Seq::<GenEntryData>::empty(),
    {
        Generators { entries: Vec::new() }
    }

    /// True when no generators are registered.
    pub fn is_empty(&self) -> (r: bool)
        ensures
            r == (self@.len() == 0),
    {
        self.entries.len() == 0
    }

    /// Registers a generator for a category at a path; a later write to the
    /// same key replaces the earlier one.
    pub fn add_generator_with_subcategory(
        &mut self,
        category: GeneratorCategory,
        path: PathExpression,
        generator: Generator,
    )
        ensures
            final(self)@ =~= add_gen_data(old(self)@, category, path@, generator@),
    {
        let ghost es = self@;
        let mut i: usize = 0;
        while i < self.entries.len()
            invariant
                *self == *old(self),
                es == self@,
                es.len() == self.entries@.len(),
                i <= self.entries@.len(),
                gen_find_from(es, category, path@, 0) == gen_find_from(
                    es,
                    category,
                    path@,
                    i as int,
                ),
            decreases self.entries@.len() - i,
        {
            let same = self.entries[i].0 == category && self.entries[i].1.path_eq(&path);
            if same {
                let slot = &mut self.entries[i];
                slot.0 = category;
                slot.1 = path;
                slot.2 = generator;
                proof {
                    assert(self@ =~= add_gen_data(es, category, slot.1@, slot.2@));
                }
                return;
            }
            i = i + 1;
        }
        self.entries.push((category, path, generator));
        proof {
            assert(self@ =~= add_gen_data(es, category, self.entries@.last().1@, self.entries@.last().2@));
        }
    }

    /// Applies every generator of the category to the example, in
    /// registration order, under a frozen context.
    pub fn apply_generators(
        &self,
        category: GeneratorCategory,
        example: &JsonValue,
        ctx: &GenContext,
    ) -> (r: JsonValue)
        ensures
            r@ == apply_from(self@, category, example@, ctx@, 0),
    {
        let ghost es = self@;
        let mut current = example.clone();
        let mut i: usize = 0;
        while i < self.entries.len()
            invariant
                es == self@,
                es.len() == self.entries@.len(),
                i <= self.entries@.len(),
                apply_from(es, category, example@, ctx@, 0) == apply_from(
                    es,
                    category,
                    current@,
                    ctx@,
                    i as int,
                ),
            decreases self.entries@.len() - i,
        {
            if self.entries[i].0 == category {
                let entry = &self.entries[i];
                let next = replace_at_path(&current, &entry.1, 0, &entry.2, ctx);
                proof {
                    assert(entry.1@.skip(0) =~= entry.1@);
                }
                current = next;
            }
            i = i + 1;
        }
        current
    }
}

/// Law: generation is deterministic. Under one frozen context — seed, clock,
/// provider-state parameters, base URL — applying the registry twice to the
/// same example yields identical output: randomness and time enter only
/// through the context.
pub proof fn lemma_generation_deterministic(
    es: Seq<GenEntryData>,
    cat: GeneratorCategory,
    d: JsonData,
    ctx1: CtxData,
    ctx2: CtxData,
)
    requires
        ctx1 == ctx2,
    ensures
        apply_from(es, cat, d, ctx1, 0) == apply_from(es, cat, d, ctx2, 0),
{
}

} // verus!
