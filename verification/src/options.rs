//! Core option builders: the v2-first option model, its category list, and
//! the legacy `description; value|value` variable encoding.

use crate::raw::RETRO_NUM_CORE_OPTION_VALUES_MAX;
use crate::text::push_char;
use vstd::prelude::*;
use vstd::string::StringExecFns;

verus! {

/// Version of the core options interface a frontend supports.
#[derive(Clone, Copy, Debug, Default, PartialEq, Eq, PartialOrd, Ord, Hash, Structural)]
pub struct CoreOptionsVersion(u32);

impl View for CoreOptionsVersion {
    type V = u32;

    closed spec fn view(&self) -> u32 {
        self.0
    }
}

impl CoreOptionsVersion {
    /// A value is determined by its view: two values are equal exactly
    /// when their views are.
    pub proof fn lemma_view_injective(a: Self, b: Self)
        ensures
            a@ == b@ <==> a == b,
    {
    }
}

impl CoreOptionsVersion {
    pub fn new(value: u32) -> (version: Self)
        ensures
            version@ == value,
    {
        CoreOptionsVersion(value)
    }

    pub fn get(self) -> (value: u32)
        ensures
            value == self@,
    {
        self.0
    }

    /// Whether the frontend takes v1 option definitions.
    pub fn supports_v1(self) -> (supported: bool)
        ensures
            supported == (self@ >= 1),
    {
        self.0 >= 1
    }

    /// Whether the frontend takes v2 option definitions.
    pub fn supports_v2(self) -> (supported: bool)
        ensures
            supported == (self@ >= 2),
    {
        self.0 >= 2
    }

    /// The version from the frontend's answer to the version query: the
    /// reported version, or 0 (legacy variables only) when it did not answer.
    pub fn from_query(answered: bool, reported: u32) -> (version: Self)
        ensures
            version@ == if answered {
                reported
            } else {
                0
            },
    {
        if answered {
            CoreOptionsVersion::new(reported)
        } else {
            CoreOptionsVersion::new(0)
        }
    }

    /// The interface core options are handed over with: v2 definitions where
    /// the frontend takes them, else v1 definitions, else legacy variables.
    pub fn preferred_interface(self) -> (interface: CoreOptionsInterface)
        ensures
            interface == if self@ >= 2 {
                CoreOptionsInterface::V2Definitions
            } else if self@ >= 1 {
                CoreOptionsInterface::V1Definitions
            } else {
                CoreOptionsInterface::LegacyVariables
            },
    {
        if self.supports_v2() {
            CoreOptionsInterface::V2Definitions
        } else if self.supports_v1() {
            CoreOptionsInterface::V1Definitions
        } else {
            CoreOptionsInterface::LegacyVariables
        }
    }
}

/// How core options are handed to the frontend.
#[derive(Clone, Copy, Debug, PartialEq, Eq, Structural)]
pub enum CoreOptionsInterface {
    /// `SET_CORE_OPTIONS_V2` with categories and definitions.
    V2Definitions,
    /// `SET_CORE_OPTIONS` with v1 definitions.
    V1Definitions,
    /// `SET_VARIABLES` with the legacy `description; value|value` encoding.
    LegacyVariables,
}

/// A frontend that takes v2 definitions takes v1 definitions too.
pub proof fn lemma_v2_support_implies_v1(version: CoreOptionsVersion)
    ensures
        version@ >= 2 ==> version@ >= 1,
{
}

/// A legacy `key` / `value` variable.
#[derive(Clone, Debug)]
pub struct VariableDefinition {
    pub key: String,
    pub value: String,
}

impl VariableDefinition {
    pub fn new(key: &str, value: &str) -> (variable: Self)
        ensures
            variable.key@ == key@,
            variable.value@ == value@,
    {
        VariableDefinition { key: key.to_owned(), value: value.to_owned() }
    }
}

/// One value of a core option, with an optional display label.
#[derive(Clone, Debug, PartialEq, Eq)]
pub struct CoreOptionValue {
    pub value: String,
    pub label: Option<String>,
}

impl CoreOptionValue {
    pub fn new(value: &str) -> (option_value: Self)
        ensures
            option_value.value@ == value@,
            option_value.label is None,
    {
        CoreOptionValue { value: value.to_owned(), label: None }
    }

    pub fn with_label(self, label: &str) -> (option_value: Self)
        ensures
            option_value.value == self.value,
            option_value.label matches Some(l) && l@ == label@,
    {
        CoreOptionValue { value: self.value, label: Some(label.to_owned()) }
    }
}

/// A core option: its key, descriptions, category, values and default.
#[derive(Clone, Debug, PartialEq, Eq)]
pub struct CoreOptionDefinition {
    pub key: String,
    pub description: String,
    pub description_categorized: Option<String>,
    pub info: Option<String>,
    pub info_categorized: Option<String>,
    pub category_key: Option<String>,
    pub values: Vec<CoreOptionValue>,
    pub default_value: String,
}

impl CoreOptionDefinition {
    pub fn new(key: &str, description: &str, default_value: &str) -> (definition: Self)
        ensures
            definition.key@ == key@,
            definition.description@ == description@,
            definition.default_value@ == default_value@,
            definition.description_categorized is None,
            definition.info is None,
            definition.info_categorized is None,
            definition.category_key is None,
            definition.values@.len() == 0,
    {
        CoreOptionDefinition {
            key: key.to_owned(),
            description: description.to_owned(),
            description_categorized: None,
            info: None,
            info_categorized: None,
            category_key: None,
            values: Vec::new(),
            default_value: default_value.to_owned(),
        }
    }

    /// Appends one value.
    pub fn with_value(self, value: CoreOptionValue) -> (definition: Self)
        ensures
            definition == (CoreOptionDefinition { values: definition.values, ..self }),
            definition.values@ == self.values@.push(value),
    {
        let mut definition = self;
        definition.values.push(value);
        definition
    }

    /// Appends `values` in order.
    pub fn with_values(self, values: Vec<CoreOptionValue>) -> (definition: Self)
        ensures
            definition == (CoreOptionDefinition { values: definition.values, ..self }),
            definition.values@ == self.values@ + values@,
    {
        let mut definition = self;
        let mut values = values;
        definition.values.append(&mut values);
        definition
    }

    pub fn with_info(self, info: &str) -> (definition: Self)
        ensures
            definition == (CoreOptionDefinition { info: definition.info, ..self }),
            definition.info matches Some(s) && s@ == info@,
    {
        CoreOptionDefinition { info: Some(info.to_owned()), ..self }
    }

    pub fn with_categorized_description(self, description: &str) -> (definition: Self)
        ensures
            definition == (CoreOptionDefinition {
                description_categorized: definition.description_categorized,
                ..self
            }),
            definition.description_categorized matches Some(s) && s@ == description@,
    {
        CoreOptionDefinition { description_categorized: Some(description.to_owned()), ..self }
    }

    pub fn with_categorized_info(self, info: &str) -> (definition: Self)
        ensures
            definition == (CoreOptionDefinition {
                info_categorized: definition.info_categorized,
                ..self
            }),
            definition.info_categorized matches Some(s) && s@ == info@,
    {
        CoreOptionDefinition { info_categorized: Some(info.to_owned()), ..self }
    }

    pub fn with_category(self, category_key: &str) -> (definition: Self)
        ensures
            definition == (CoreOptionDefinition { category_key: definition.category_key, ..self }),
            definition.category_key matches Some(s) && s@ == category_key@,
    {
        CoreOptionDefinition { category_key: Some(category_key.to_owned()), ..self }
    }
}

/// A v2 option category.
#[derive(Clone, Debug, PartialEq, Eq)]
pub struct CoreOptionCategory {
    pub key: String,
    pub description: String,
    pub info: Option<String>,
}

impl CoreOptionCategory {
    pub fn new(key: &str, description: &str) -> (category: Self)
        ensures
            category.key@ == key@,
            category.description@ == description@,
            category.info is None,
    {
        CoreOptionCategory { key: key.to_owned(), description: description.to_owned(), info: None }
    }

    pub fn with_info(self, info: &str) -> (category: Self)
        ensures
            category.key == self.key,
            category.description == self.description,
            category.info matches Some(s) && s@ == info@,
    {
        CoreOptionCategory { info: Some(info.to_owned()), ..self }
    }
}

/// The v2 option set: categories and definitions.
#[derive(Clone, Debug, Default, PartialEq, Eq)]
pub struct CoreOptions {
    pub categories: Vec<CoreOptionCategory>,
    pub definitions: Vec<CoreOptionDefinition>,
}

impl CoreOptions {
    pub fn new(definitions: Vec<CoreOptionDefinition>) -> (options: Self)
        ensures
            options.categories@.len() == 0,
            options.definitions@ == definitions@,
    {
        CoreOptions { categories: Vec::new(), definitions }
    }

    /// Appends `categories` in order.
    pub fn with_categories(self, categories: Vec<CoreOptionCategory>) -> (options: Self)
        ensures
            options.definitions == self.definitions,
            options.categories@ == self.categories@ + categories@,
    {
        let mut options = self;
        let mut categories = categories;
        options.categories.append(&mut categories);
        options
    }
}

/// Whether the frontend should show the option `key`.
#[derive(Clone, Debug, PartialEq, Eq)]
pub struct CoreOptionDisplay {
    pub key: String,
    pub visible: bool,
}

impl CoreOptionDisplay {
    pub fn new(key: &str, visible: bool) -> (display: Self)
        ensures
            display.key@ == key@,
            display.visible == visible,
    {
        CoreOptionDisplay { key: key.to_owned(), visible }
    }
}

/// Why an option table could not be built.
#[derive(Debug, Clone, Copy, PartialEq, Eq, Structural)]
pub enum CoreOptionsBuildError {
    /// A definition has more values than a libretro option table holds.
    TooManyValues { max: usize },
}

/// Checks that a definition's values fit a libretro option table.
pub fn ensure_values_fit(definition: &CoreOptionDefinition) -> (fits: Result<(), CoreOptionsBuildError>)
    ensures
        definition.values@.len() <= RETRO_NUM_CORE_OPTION_VALUES_MAX ==> fits is Ok,
        definition.values@.len() > RETRO_NUM_CORE_OPTION_VALUES_MAX ==> fits == Err::<
            (),
            CoreOptionsBuildError,
        >(CoreOptionsBuildError::TooManyValues { max: RETRO_NUM_CORE_OPTION_VALUES_MAX }),
{
    if definition.values.len() > RETRO_NUM_CORE_OPTION_VALUES_MAX {
        return Err(CoreOptionsBuildError::TooManyValues { max: RETRO_NUM_CORE_OPTION_VALUES_MAX });
    }
    Ok(())
}

/// The value strings of a definition's values.
pub open spec fn spec_value_strings(values: Seq<CoreOptionValue>) -> Seq<Seq<char>> {
    values.map_values(|value: CoreOptionValue| value.value@)
}

/// `values` without the entries equal to `removed`, in order.
pub open spec fn spec_without(values: Seq<Seq<char>>, removed: Seq<char>) -> Seq<Seq<char>>
    decreases values.len(),
{
    if values.len() == 0 {
        Seq::empty()
    } else {
        let rest = spec_without(values.drop_last(), removed);
        if values.last() == removed {
            rest
        } else {
            rest.push(values.last())
        }
    }
}

/// The values in legacy order: where the default is one of them, it comes
/// first, followed by the others in order; otherwise all values in order.
pub open spec fn spec_legacy_value_order(values: Seq<Seq<char>>, default_value: Seq<char>) -> Seq<
    Seq<char>,
> {
    if values.contains(default_value) {
        seq![default_value] + spec_without(values, default_value)
    } else {
        values
    }
}

/// `parts` joined with `|`.
pub open spec fn spec_join_pipe(parts: Seq<Seq<char>>) -> Seq<char>
    decreases parts.len(),
{
    if parts.len() == 0 {
        Seq::empty()
    } else if parts.len() == 1 {
        parts[0]
    } else {
        spec_join_pipe(parts.drop_last()) + seq!['|'] + parts.last()
    }
}

/// The legacy variable value of a definition: `description; v1|v2|...`.
pub open spec fn spec_legacy_definition_value(definition: CoreOptionDefinition) -> Seq<char> {
    definition.description@ + seq![';', ' '] + spec_join_pipe(
        spec_legacy_value_order(spec_value_strings(definition.values@), definition.default_value@),
    )
}

/// Whether a value differs from `removed`.
pub open spec fn spec_differs_from(removed: Seq<char>) -> spec_fn(Seq<char>) -> bool {
    |value: Seq<char>| value != removed
}

proof fn lemma_without_filter(values: Seq<Seq<char>>, removed: Seq<char>)
    ensures
        spec_without(values, removed) == values.filter(spec_differs_from(removed)),
    decreases values.len(),
{
    reveal(Seq::filter);
    if values.len() > 0 {
        lemma_without_filter(values.drop_last(), removed);
    }
}

proof fn lemma_join_pipe_front(first: Seq<char>, rest: Seq<Seq<char>>)
    ensures
        spec_join_pipe(seq![first] + rest) == if rest.len() == 0 {
            first
        } else {
            first + seq!['|'] + spec_join_pipe(rest)
        },
    decreases rest.len(),
{
    let all = seq![first] + rest;
    if rest.len() == 0 {
        assert(all =~= seq![first]);
    } else if rest.len() == 1 {
        assert(all.drop_last() =~= seq![first]);
        assert(all.last() == rest[0]);
        assert(spec_join_pipe(seq![first]) == first);
        assert(spec_join_pipe(rest) == rest[0]);
        assert(spec_join_pipe(all) == spec_join_pipe(all.drop_last()) + seq!['|'] + all.last());
    } else {
        assert(all.drop_last() =~= seq![first] + rest.drop_last());
        assert(all.last() == rest.last());
        assert(spec_join_pipe(all) == spec_join_pipe(all.drop_last()) + seq!['|'] + all.last());
        assert(spec_join_pipe(rest) == spec_join_pipe(rest.drop_last()) + seq!['|'] + rest.last());
        lemma_join_pipe_front(first, rest.drop_last());
        assert(first + seq!['|'] + spec_join_pipe(rest.drop_last()) + seq!['|'] + rest.last() =~= first
            + seq!['|'] + (spec_join_pipe(rest.drop_last()) + seq!['|'] + rest.last()));
    }
}

/// The legacy encoding of a definition puts its default value first where
/// the default is one of its values: after `description; ` come the default
/// and then, behind a `|`, the other values in order, none of them equal to
/// the default. Where the default is not among the values, they keep their
/// order.
pub proof fn lemma_legacy_default_first(definition: CoreOptionDefinition)
    ensures
        ({
            let values = spec_value_strings(definition.values@);
            let default_value = definition.default_value@;
            let order = spec_legacy_value_order(values, default_value);
            let others = values.filter(spec_differs_from(default_value));
            let prefix = definition.description@ + seq![';', ' '];
            &&& values.contains(default_value) ==> {
                &&& order == seq![default_value] + others
                &&& forall|i: int| 1 <= i < order.len() ==> #[trigger] order[i] != default_value
                &&& spec_legacy_definition_value(definition) == prefix + default_value + if others.len()
                    == 0 {
                    Seq::<char>::empty()
                } else {
                    seq!['|'] + spec_join_pipe(others)
                }
            }
            &&& !values.contains(default_value) ==> order == values
        }),
{
    let values = spec_value_strings(definition.values@);
    let default_value = definition.default_value@;
    let others = values.filter(spec_differs_from(default_value));
    lemma_without_filter(values, default_value);
    if values.contains(default_value) {
        let order = spec_legacy_value_order(values, default_value);
        assert forall|i: int| 1 <= i < order.len() implies #[trigger] order[i] != default_value by {
            assert(order[i] == others[i - 1]);
            values.lemma_filter_pred(spec_differs_from(default_value), i - 1);
        }
        lemma_join_pipe_front(default_value, others);
        let prefix = definition.description@ + seq![';', ' '];
        if others.len() == 0 {
            assert(prefix + default_value =~= prefix + default_value + Seq::<char>::empty());
        } else {
            assert(prefix + (default_value + seq!['|'] + spec_join_pipe(others)) =~= prefix
                + default_value + (seq!['|'] + spec_join_pipe(others)));
        }
    }
}

proof fn lemma_contains_push(s: Seq<Seq<char>>, x: Seq<char>, d: Seq<char>)
    ensures
        s.push(x).contains(d) == (s.contains(d) || x == d),
{
    if s.push(x).contains(d) && x != d {
        let j = choose|j: int| 0 <= j < s.push(x).len() && s.push(x)[j] == d;
        assert(s[j] == d);
    }
    if s.contains(d) {
        let j = choose|j: int| 0 <= j < s.len() && s[j] == d;
        assert(s.push(x)[j] == d);
    }
    if x == d {
        assert(s.push(x)[s.len() as int] == d);
    }
}

proof fn lemma_join_pipe_step(parts: Seq<Seq<char>>, i: int)
    requires
        0 <= i < parts.len(),
    ensures
        spec_join_pipe(parts.take(i + 1)) == if i == 0 {
            parts[0]
        } else {
            spec_join_pipe(parts.take(i)) + seq!['|'] + parts[i]
        },
{
    assert(parts.take(i + 1).drop_last() =~= parts.take(i));
}

/// Appends `parts` joined with `|` to `out`.
fn push_joined(out: &mut String, parts: &Vec<String>)
    ensures
        final(out)@ == old(out)@ + spec_join_pipe(parts@.map_values(|p: String| p@)),
{
    let ghost start = out@;
    let ghost all = parts@.map_values(|p: String| p@);
    let mut i: usize = 0;
    assert(all.take(0) =~= Seq::<Seq<char>>::empty());
    assert(start + spec_join_pipe(all.take(0)) =~= start);
    while i < parts.len()
        invariant
            i <= parts@.len(),
            all == parts@.map_values(|p: String| p@),
            out@ == start + spec_join_pipe(all.take(i as int)),
        decreases parts.len() - i,
    {
        proof {
            lemma_join_pipe_step(all, i as int);
        }
        if i > 0 {
            push_char(out, '|');
        }
        out.append(parts[i].as_str());
        i = i + 1;
        assert(out@ =~= start + spec_join_pipe(all.take(i as int)));
    }
    assert(all.take(i as int) =~= all);
}

/// Encodes a definition as a legacy variable value: its description, `; `,
/// and its values joined with `|`, the default value first when it is one
/// of them.
pub fn legacy_definition_value(definition: &CoreOptionDefinition) -> (encoded: String)
    ensures
        encoded@ == spec_legacy_definition_value(*definition),
{
    let ghost strings = spec_value_strings(definition.values@);
    let ghost default_value = definition.default_value@;
    let mut has_default = false;
    let mut i: usize = 0;
    while i < definition.values.len()
        invariant
            i <= definition.values@.len(),
            strings == spec_value_strings(definition.values@),
            default_value == definition.default_value@,
            has_default == strings.take(i as int).contains(default_value),
        decreases definition.values.len() - i,
    {
        proof {
            assert(strings.take(i + 1) =~= strings.take(i as int).push(strings[i as int]));
            lemma_contains_push(strings.take(i as int), strings[i as int], default_value);
        }
        if definition.values[i].value == definition.default_value {
            has_default = true;
        }
        i = i + 1;
    }
    assert(strings.take(i as int) =~= strings);
    let mut ordered: Vec<String> = Vec::new();
    if has_default {
        ordered.push(definition.default_value.clone());
    }
    let ghost prefix = ordered@.map_values(|p: String| p@);
    assert(prefix =~= if has_default {
        seq![default_value]
    } else {
        Seq::<Seq<char>>::empty()
    });
    let mut k: usize = 0;
    while k < definition.values.len()
        invariant
            k <= definition.values@.len(),
            strings == spec_value_strings(definition.values@),
            default_value == definition.default_value@,
            has_default == strings.contains(default_value),
            prefix == (if has_default {
                seq![default_value]
            } else {
                Seq::<Seq<char>>::empty()
            }),
            ordered@.map_values(|p: String| p@) == prefix + if has_default {
                spec_without(strings.take(k as int), default_value)
            } else {
                strings.take(k as int)
            },
        decreases definition.values.len() - k,
    {
        proof {
            assert(strings.take(k + 1).drop_last() =~= strings.take(k as int));
        }
        let ghost before = ordered@.map_values(|p: String| p@);
        if !has_default || !(definition.values[k].value == definition.default_value) {
            ordered.push(definition.values[k].value.clone());
            assert(ordered@.map_values(|p: String| p@) =~= before.push(strings[k as int]));
        } else {
            assert(ordered@.map_values(|p: String| p@) =~= before);
        }
        k = k + 1;
    }
    assert(strings.take(k as int) =~= strings);
    let mut encoded = definition.description.clone();
    push_char(&mut encoded, ';');
    push_char(&mut encoded, ' ');
    push_joined(&mut encoded, &ordered);
    assert(ordered@.map_values(|p: String| p@) =~= spec_legacy_value_order(strings, default_value));
    encoded
}

} // verus!
