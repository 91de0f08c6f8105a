//! The configuration of a run: what the command line asks for, what a flavour
//! declares, and the template inputs that come of both.
use crate::entries::{
    insert_entry, key_position, law_lookup_after_insert, lemma_key_position, lemma_lookup_drop_last,
    lookup,
};
use crate::name_map::keys_distinct;
use crate::name_map::NameMap;
use vstd::prelude::*;

verus! {

/// What a run is asked to do: the schema to read, the flavour to generate
/// with, and the template inputs given on the command line.
pub struct AppConfig {
    pub schema: String,
    pub flavour: String,
    pub inputs: NameMap<String>,
}

/// The inputs given as a flat list of names and values, taken two by two:
/// the first `n` pairs, a later value for a name replacing an earlier one.
pub open spec fn paired_inputs(s: Seq<String>, n: nat) -> Seq<(Seq<char>, String)>
    decreases n,
{
    if n == 0 {
        Seq::empty()
    } else {
        insert_entry(paired_inputs(s, (n - 1) as nat), s[2 * n - 2]@, s[2 * n - 1])
    }
}

/// The value of the last pair, among the first `n`, whose name is `k`.
pub open spec fn last_pair_value(s: Seq<String>, n: nat, k: Seq<char>) -> Option<String>
    decreases n,
{
    if n == 0 {
        None
    } else if s[2 * n - 2]@ == k {
        Some(s[2 * n - 1])
    } else {
        last_pair_value(s, (n - 1) as nat, k)
    }
}

/// A name given on the command line takes the value of the last pair that
/// names it; a name in no pair has no value.
pub proof fn law_last_pair_wins(s: Seq<String>, n: nat, k: Seq<char>)
    ensures
        lookup(paired_inputs(s, n), k) == last_pair_value(s, n, k),
    decreases n,
{
    if n > 0 {
        law_last_pair_wins(s, (n - 1) as nat, k);
        law_lookup_after_insert(paired_inputs(s, (n - 1) as nat), s[2 * n - 2]@, s[2 * n - 1], k);
    }
}

/// A text that may be absent, or a default.
pub open spec fn text_or(s: Option<String>, default: Seq<char>) -> Seq<char> {
    match s {
        Some(t) => t@,
        None => default,
    }
}

impl AppConfig {
    /// The configuration of a run: the schema defaults to `openapi.yaml`, the
    /// flavour to `default`, and the inputs pair up names and values; a name
    /// left without a value at the end is dropped.
    pub fn new(schema: Option<String>, flavour: Option<String>, inputs: Vec<String>) -> (r: Self)
        ensures
            r.schema@ == text_or(schema, "openapi.yaml"@),
            r.flavour@ == text_or(flavour, "default"@),
            r.inputs@ == paired_inputs(inputs@, inputs@.len() / 2),
    {
        let mut input_map: NameMap<String> = NameMap::new();
        let mut i: usize = 0;
        while i + 1 < inputs.len()
            invariant
                i % 2 == 0,
                i <= inputs.len(),
                input_map@ == paired_inputs(inputs@, (i / 2) as nat),
            decreases inputs.len() - i,
        {
            let key = inputs[i].clone();
            let value = inputs[i + 1].clone();
            input_map.insert(key, value);
            i = i + 2;
        }
        assert(i / 2 == inputs@.len() / 2);
        AppConfig {
            schema: match schema {
                Some(s) => s,
                None => String::from_str("openapi.yaml"),
            },
            flavour: match flavour {
                Some(f) => f,
                None => String::from_str("default"),
            },
            inputs: input_map,
        }
    }
}

/// An input that a flavour's templates take: whether it must be given, and
/// the value it takes when it is not.
pub struct FlavourInput {
    pub required: bool,
    pub default: Option<String>,
}

/// How a template is rendered: once, or once per schema or per path.
#[derive(Clone, Copy, Debug, PartialEq, Eq)]
pub enum IterationKind {
    Schemas,
    Paths,
}

/// A template of a flavour: its name, the template file, and where its
/// output goes.
pub struct TemplateManifest {
    pub name: String,
    pub input: String,
    pub output_dir: String,
    pub output: String,
    pub iteration: Option<IterationKind>,
}

/// What a flavour declares: its version and language, its inputs and its templates.
pub struct FlavourConfig {
    pub version: Option<String>,
    pub language: String,
    pub inputs: Option<NameMap<FlavourInput>>,
    pub templates: Vec<TemplateManifest>,
}

/// A required input that was not given.
#[derive(Debug)]
pub enum InputError {
    MissingRequired(String),
}

impl InputError {
    /// The message that tells the user which input is missing.
    pub fn message(&self) -> (m: String)
        ensures
            self matches InputError::MissingRequired(k) && m@ == "Missing required input parameter \""@
                + k@ + "\"."@,
    {
        match self {
            InputError::MissingRequired(key) => {
                let mut m = String::from_str("Missing required input parameter \"");
                m.append(key.as_str());
                m.append("\".");
                m
            },
        }
    }
}

/// The first declared input, in order, that is required and not given.
pub open spec fn first_missing(
    declared: Seq<(Seq<char>, FlavourInput)>,
    given: Seq<(Seq<char>, String)>,
) -> Option<Seq<char>>
    decreases declared.len(),
{
    if declared.len() == 0 {
        None
    } else if declared[0].1.required && lookup(given, declared[0].0) is None {
        Some(declared[0].0)
    } else {
        first_missing(declared.drop_first(), given)
    }
}

/// The value an input takes: the one given, else its default, if any.
pub open spec fn input_value(input: FlavourInput, given: Seq<(Seq<char>, String)>, key: Seq<char>) -> Option<String> {
    match lookup(given, key) {
        Some(v) => Some(v),
        None => input.default,
    }
}

/// The value of each declared input that has one, by name, in order.
pub open spec fn resolved_inputs(
    declared: Seq<(Seq<char>, FlavourInput)>,
    given: Seq<(Seq<char>, String)>,
) -> Seq<(Seq<char>, String)>
    decreases declared.len(),
{
    if declared.len() == 0 {
        Seq::empty()
    } else {
        let before = resolved_inputs(declared.drop_last(), given);
        match input_value(declared.last().1, given, declared.last().0) {
            Some(v) => insert_entry(before, declared.last().0, v),
            None => before,
        }
    }
}

/// A run stops for a missing input exactly when some declared input is
/// required and not given; the one it names is such an input.
pub proof fn law_missing_required(
    declared: Seq<(Seq<char>, FlavourInput)>,
    given: Seq<(Seq<char>, String)>,
)
    ensures
        first_missing(declared, given) is Some <==> exists|i: int|
            0 <= i < declared.len() && (#[trigger] declared[i]).1.required && lookup(
                given,
                declared[i].0,
            ) is None,
        first_missing(declared, given) matches Some(k) ==> exists|i: int|
            0 <= i < declared.len() && (#[trigger] declared[i]).0 == k && declared[i].1.required
                && lookup(given, k) is None,
    decreases declared.len(),
{
    if declared.len() > 0 {
        let rest = declared.drop_first();
        law_missing_required(rest, given);
        assert forall|i: int| 0 < i < declared.len() implies #[trigger] declared[i] == rest[i - 1] by {}
        if first_missing(rest, given) is Some && !(declared[0].1.required && lookup(
            given,
            declared[0].0,
        ) is None) {
            let i = choose|i: int|
                0 <= i < rest.len() && (#[trigger] rest[i]).1.required && lookup(
                    given,
                    rest[i].0,
                ) is None;
            assert(declared[i + 1] == rest[i]);
            if let Some(k) = first_missing(rest, given) {
                let j = choose|j: int|
                    0 <= j < rest.len() && (#[trigger] rest[j]).0 == k && rest[j].1.required
                        && lookup(given, k) is None;
                assert(declared[j + 1] == rest[j]);
            }
        }
        if first_missing(declared, given) is None {
            assert forall|i: int|
                0 <= i < declared.len() && (#[trigger] declared[i]).1.required implies lookup(
                given,
                declared[i].0,
            ) is Some by {
                if i > 0 {
                    assert(declared[i] == rest[i - 1]);
                }
            }
        }
    }
}

/// The value an input gets: the one given on the command line, else its
/// default; a name the flavour does not declare gets none.
pub proof fn law_resolved_input(
    declared: Seq<(Seq<char>, FlavourInput)>,
    given: Seq<(Seq<char>, String)>,
    k: Seq<char>,
)
    requires
        keys_distinct(declared),
    ensures
        lookup(resolved_inputs(declared, given), k) == match lookup(declared, k) {
            Some(input) => input_value(input, given, k),
            None => None,
        },
    decreases declared.len(),
{
    if declared.len() > 0 {
        let init = declared.drop_last();
        assert forall|i: int, j: int|
            0 <= i < init.len() && 0 <= j < init.len() && i != j implies (#[trigger] init[i]).0
            != (#[trigger] init[j]).0 by {
            assert(init[i] == declared[i]);
            assert(init[j] == declared[j]);
        }
        law_resolved_input(init, given, k);
        lemma_lookup_drop_last(declared, k);
        let last = declared.last();
        if last.0 == k {
            lemma_key_position(init, k);
            if let Some(i) = key_position(init, k) {
                assert(declared[i] == init[i]);
                assert(declared[declared.len() - 1] == last);
            }
        }
        let before = resolved_inputs(init, given);
        match input_value(last.1, given, last.0) {
            Some(v) => {
                law_lookup_after_insert(before, last.0, v, k);
            },
            None => {},
        }
    }
}

proof fn lemma_first_missing_prefix(
    declared: Seq<(Seq<char>, FlavourInput)>,
    given: Seq<(Seq<char>, String)>,
    i: int,
)
    requires
        0 <= i < declared.len(),
        first_missing(declared.take(i), given) is None,
    ensures
        first_missing(declared.take(i + 1), given) == if declared[i].1.required && lookup(
            given,
            declared[i].0,
        ) is None {
            Some(declared[i].0)
        } else {
            None::<Seq<char>>
        },
    decreases i,
{
    if i == 0 {
        assert(declared.take(1)[0] == declared[0]);
        assert(declared.take(1).drop_first() =~= Seq::<(Seq<char>, FlavourInput)>::empty());
        assert(first_missing(declared.take(1).drop_first(), given) is None);
    } else {
        assert(declared.take(i)[0] == declared[0]);
        assert(declared.take(i + 1)[0] == declared[0]);
        assert(declared.take(i).drop_first() =~= declared.drop_first().take(i - 1));
        assert(declared.take(i + 1).drop_first() =~= declared.drop_first().take(i));
        assert(declared.drop_first()[i - 1] == declared[i]);
        lemma_first_missing_prefix(declared.drop_first(), given, i - 1);
    }
}

/// The inputs that the templates of a flavour get: each declared input takes
/// the value given on the command line, else its default, else it is left
/// out; the first required input, in order, that is not given is an error.
pub fn resolve_inputs(declared: &Option<NameMap<FlavourInput>>, given: &NameMap<String>) -> (r:
    Result<NameMap<String>, InputError>)
    ensures
        match declared {
            None => r matches Ok(data) && data@ == Seq::<(Seq<char>, String)>::empty(),
            Some(d) => match first_missing(d@, given@) {
                Some(k) => r matches Err(InputError::MissingRequired(m)) && m@ == k,
                None => r matches Ok(data) && data@ == resolved_inputs(d@, given@),
            },
        },
{
    let mut data: NameMap<String> = NameMap::new();
    if let Some(inputs) = declared {
        let entries = inputs.entries();
        let ghost all = inputs@;
        let mut i: usize = 0;
        while i < entries.len()
            invariant
                i <= entries@.len(),
                declared matches Some(d) && d@ == all,
                entries@.map_values(|e: (String, FlavourInput)| (e.0@, e.1)) == all,
                first_missing(all.take(i as int), given@) is None,
                data@ == resolved_inputs(all.take(i as int), given@),
            decreases entries@.len() - i,
        {
            let key = &entries[i].0;
            let input = &entries[i].1;
            assert(all[i as int] == (key@, *input));
            proof {
                lemma_first_missing_prefix(all, given@, i as int);
                assert(all.take(i + 1).drop_last() =~= all.take(i as int));
            }
            let input_data = given.get(key.as_str());
            if input.required && input_data.is_none() {
                proof {
                    lemma_first_missing_append(all, given@, i as int);
                }
                return Err(InputError::MissingRequired(key.clone()));
            }
            match input_data {
                Some(value) => {
                    data.insert(key.clone(), value.clone());
                },
                None => {
                    if let Some(value) = &input.default {
                        data.insert(key.clone(), value.clone());
                    }
                },
            }
            i = i + 1;
        }
        proof {
            assert(all.take(all.len() as int) =~= all);
        }
    }
    Ok(data)
}

proof fn lemma_first_missing_append(
    declared: Seq<(Seq<char>, FlavourInput)>,
    given: Seq<(Seq<char>, String)>,
    i: int,
)
    requires
        0 <= i < declared.len(),
        first_missing(declared.take(i), given) is None,
        declared[i].1.required,
        lookup(given, declared[i].0) is None,
    ensures
        first_missing(declared, given) == Some(declared[i].0),
    decreases i,
{
    if i > 0 {
        assert(declared.take(i)[0] == declared[0]);
        assert(declared.take(i).drop_first() =~= declared.drop_first().take(i - 1));
        lemma_first_missing_append(declared.drop_first(), given, i - 1);
    }
}

} // verus!
