//! What holds of every catalog, every token sequence and every state of a
//! registry.

use vstd::prelude::*;
use crate::catalog::{
    admissible_at,
    catalog_wf,
    default_values,
    flag_index,
    is_flag_name,
    lemma_flag_index_of_own_name,
    EntryView,
};
use crate::occurrence::{
    lemma_first_occurrence_absent,
    lemma_first_occurrence_cases,
    lemma_first_occurrence_is,
};
use crate::registry::{
    apply_token,
    apply_tokens,
    lemma_apply_tokens_keeps_kinds,
    lemma_defaults_match_kinds,
    loaded_values,
    RegistryView,
};
use crate::token::{assignment_of, lemma_assignment_fits, split_token, Assignment, TokenParts};
use crate::value::{
    coerce_spec,
    lemma_render_then_coerce,
    render_spec,
    true_text,
    FlagKind,
    Value,
};

verus! {

/// Whether `token` assigns to flag `i`.
pub open spec fn assigns_to(catalog: Seq<EntryView>, token: Seq<char>, i: int) -> bool {
    assignment_of(catalog, token) matches Some(a) && a.index == i
}

/// One call on a registry.
pub enum Operation {
    /// A load of the given tokens.
    Load(Seq<Seq<char>>),
    /// Switching the testing override on.
    SetAllForTesting,
}

/// The state after one operation.
pub open spec fn step(state: RegistryView, operation: Operation) -> RegistryView {
    match operation {
        Operation::Load(tokens) => state.loaded(tokens),
        Operation::SetAllForTesting => state.overridden(),
    }
}

/// The state after a sequence of operations, carried out in order.
pub open spec fn run(state: RegistryView, operations: Seq<Operation>) -> RegistryView
    decreases operations.len(),
{
    if operations.len() == 0 {
        state
    } else {
        step(run(state, operations.drop_last()), operations.last())
    }
}

/// Applying tokens to one value for each flag leaves one value for each
/// flag.
pub proof fn lemma_apply_tokens_len(
    catalog: Seq<EntryView>,
    values: Seq<Value>,
    tokens: Seq<Seq<char>>,
)
    requires
        values.len() == catalog.len(),
    ensures
        apply_tokens(catalog, values, tokens).len() == values.len(),
    decreases tokens.len(),
{
    if tokens.len() > 0 {
        lemma_apply_tokens_len(catalog, values, tokens.drop_last());
        lemma_assignment_fits(catalog, tokens.last());
    }
}

/// No two flags of a catalog share a name.
pub proof fn law_names_are_unique(catalog: Seq<EntryView>, i: int, j: int)
    requires
        catalog_wf(catalog),
        0 <= i < catalog.len(),
        0 <= j < catalog.len(),
        i != j,
    ensures
        catalog[i].name != catalog[j].name,
{
    assert(admissible_at(catalog, i));
    assert(admissible_at(catalog, j));
}

/// Before any load, every flag has its catalog default.
pub proof fn law_defaults_before_load(catalog: Seq<EntryView>, i: int)
    requires
        0 <= i < catalog.len(),
    ensures
        RegistryView::initial(catalog).effective_value(i) == catalog[i].default_value,
{
}

/// A load does not build on an earlier load: two loads in a row leave what
/// the second alone would leave.
pub proof fn law_load_forgets_earlier_loads(
    state: RegistryView,
    first: Seq<Seq<char>>,
    second: Seq<Seq<char>>,
)
    ensures
        state.loaded(first).loaded(second) == state.loaded(second),
{
}

/// A load leaves a well-formed registry well formed.
pub proof fn law_load_keeps_registry_well_formed(state: RegistryView, tokens: Seq<Seq<char>>)
    requires
        catalog_wf(state.catalog),
    ensures
        state.loaded(tokens).wf(),
{
    lemma_defaults_match_kinds(state.catalog);
    lemma_apply_tokens_keeps_kinds(state.catalog, default_values(state.catalog), tokens);
}

/// The token that gives `name` the value `text`.
pub open spec fn join(name: Seq<char>, text: Seq<char>) -> Seq<char> {
    name + seq!['='] + text
}

/// A name, `=` and a text make a token that splits into the name and the
/// text again.
pub proof fn lemma_split_of_join(name: Seq<char>, text: Seq<char>)
    requires
        is_flag_name(name),
    ensures
        split_token(join(name, text)) == (TokenParts { name, value: Some(text) }),
{
    let token = join(name, text);
    lemma_first_occurrence_is(token, '=', name.len() as int);
    assert(token.take(name.len() as int) =~= name);
    assert(token.skip(name.len() as int + 1) =~= text);
}

/// A token without `=` is all name.
pub proof fn lemma_split_of_bare_name(name: Seq<char>)
    requires
        is_flag_name(name),
    ensures
        split_token(name) == (TokenParts { name, value: None }),
{
    lemma_first_occurrence_absent(name, '=');
}

/// After a load whose last token gives a flag, by its name, a text that
/// coerces to the flag's kind, the flag holds the coerced value, whatever
/// its default and whatever the earlier tokens.
pub proof fn law_load_overwrites(
    catalog: Seq<EntryView>,
    earlier: Seq<Seq<char>>,
    i: int,
    text: Seq<char>,
)
    requires
        catalog_wf(catalog),
        0 <= i < catalog.len(),
        coerce_spec(catalog[i].kind, text) is Some,
    ensures
        loaded_values(catalog, earlier.push(join(catalog[i].name, text)))[i] == coerce_spec(
            catalog[i].kind,
            text,
        )->0,
{
    let token = join(catalog[i].name, text);
    let tokens = earlier.push(token);
    assert(admissible_at(catalog, i));
    lemma_split_of_join(catalog[i].name, text);
    lemma_flag_index_of_own_name(catalog, i);
    law_last_assignment_wins(
        catalog,
        tokens,
        tokens.len() - 1,
        Assignment { index: i, value: coerce_spec(catalog[i].kind, text)->0 },
    );
}

/// After a load, a flag holds what the last token that assigns to it
/// gives. Here token `k` asks for the assignment `a`, and no later token
/// assigns to the same flag.
pub proof fn law_last_assignment_wins(
    catalog: Seq<EntryView>,
    tokens: Seq<Seq<char>>,
    k: int,
    a: Assignment,
)
    requires
        0 <= k < tokens.len(),
        assignment_of(catalog, tokens[k]) == Some(a),
        forall|m: int| k < m < tokens.len() ==> !assigns_to(catalog, #[trigger] tokens[m], a.index),
    ensures
        loaded_values(catalog, tokens)[a.index] == a.value,
    decreases tokens.len(),
{
    let shorter = tokens.drop_last();
    lemma_assignment_fits(catalog, tokens[k]);
    lemma_apply_tokens_len(catalog, default_values(catalog), shorter);
    if k < tokens.len() - 1 {
        law_last_assignment_wins(catalog, shorter, k, a);
        lemma_assignment_fits(catalog, tokens.last());
    }
}

/// A flag that no token assigns to has its default after the load.
pub proof fn law_unassigned_flag_has_default(
    catalog: Seq<EntryView>,
    tokens: Seq<Seq<char>>,
    i: int,
)
    requires
        0 <= i < catalog.len(),
        forall|m: int| 0 <= m < tokens.len() ==> !assigns_to(catalog, #[trigger] tokens[m], i),
    ensures
        loaded_values(catalog, tokens)[i] == catalog[i].default_value,
    decreases tokens.len(),
{
    if tokens.len() > 0 {
        let shorter = tokens.drop_last();
        law_unassigned_flag_has_default(catalog, shorter, i);
        lemma_apply_tokens_len(catalog, default_values(catalog), shorter);
        lemma_assignment_fits(catalog, tokens.last());
    }
}

/// Two token sequences whose tokens ask for the same assignments, position
/// by position, lead to the same values.
pub proof fn lemma_values_depend_on_assignments(
    catalog: Seq<EntryView>,
    values: Seq<Value>,
    a: Seq<Seq<char>>,
    b: Seq<Seq<char>>,
)
    requires
        a.len() == b.len(),
        forall|k: int|
            0 <= k < a.len() ==> assignment_of(catalog, #[trigger] a[k]) == assignment_of(
                catalog,
                b[k],
            ),
    ensures
        apply_tokens(catalog, values, a) == apply_tokens(catalog, values, b),
    decreases a.len(),
{
    if a.len() > 0 {
        lemma_values_depend_on_assignments(catalog, values, a.drop_last(), b.drop_last());
    }
}

/// A token that asks for no assignment can be left out.
pub proof fn lemma_skipped_token_can_be_left_out(
    catalog: Seq<EntryView>,
    values: Seq<Value>,
    tokens: Seq<Seq<char>>,
    k: int,
)
    requires
        0 <= k < tokens.len(),
        assignment_of(catalog, tokens[k]) is None,
    ensures
        apply_tokens(catalog, values, tokens) == apply_tokens(catalog, values, tokens.remove(k)),
    decreases tokens.len(),
{
    if k < tokens.len() - 1 {
        lemma_skipped_token_can_be_left_out(catalog, values, tokens.drop_last(), k);
        assert(tokens.remove(k).drop_last() =~= tokens.drop_last().remove(k));
    }
}

/// The tokens with those at `k` and `k + 1` exchanged.
pub open spec fn exchanged(tokens: Seq<Seq<char>>, k: int) -> Seq<Seq<char>> {
    tokens.update(k, tokens[k + 1]).update(k + 1, tokens[k])
}

/// Tokens for different flags may come in either order: exchanging two
/// neighbours that do not assign to the same flag leaves the same values.
pub proof fn law_tokens_for_different_flags_commute(
    catalog: Seq<EntryView>,
    tokens: Seq<Seq<char>>,
    k: int,
)
    requires
        0 <= k < tokens.len() - 1,
        forall|i: int| !(assigns_to(catalog, tokens[k], i) && assigns_to(catalog, tokens[k + 1], i)),
    ensures
        loaded_values(catalog, tokens) == loaded_values(catalog, exchanged(tokens, k)),
    decreases tokens.len(),
{
    let other = exchanged(tokens, k);
    let start = default_values(catalog);
    if k + 1 == tokens.len() - 1 {
        let prefix = tokens.drop_last().drop_last();
        let before = apply_tokens(catalog, start, prefix);
        lemma_apply_tokens_len(catalog, start, prefix);
        lemma_assignment_fits(catalog, tokens[k]);
        lemma_assignment_fits(catalog, tokens[k + 1]);
        assert(other.drop_last().drop_last() =~= prefix);
        assert(apply_tokens(catalog, start, tokens.drop_last()) == apply_token(
            catalog,
            before,
            tokens[k],
        ));
        assert(apply_tokens(catalog, start, other.drop_last()) == apply_token(
            catalog,
            before,
            tokens[k + 1],
        ));
        match (assignment_of(catalog, tokens[k]), assignment_of(catalog, tokens[k + 1])) {
            (Some(a), Some(b)) => {
                assert(!(assigns_to(catalog, tokens[k], a.index) && assigns_to(
                    catalog,
                    tokens[k + 1],
                    a.index,
                )));
                assert(before.update(a.index, a.value).update(b.index, b.value)
                    =~= before.update(b.index, b.value).update(a.index, a.value));
            },
            _ => {},
        }
    } else {
        let shorter = tokens.drop_last();
        assert(other.drop_last() =~= exchanged(shorter, k));
        law_tokens_for_different_flags_commute(catalog, shorter, k);
    }
}

/// A token without `=` that names a boolean flag asks for what the same
/// name followed by `=true` asks for: that the flag be set to `true`.
pub proof fn lemma_bare_name_assigns_true(catalog: Seq<EntryView>, bare: Seq<char>)
    requires
        is_flag_name(bare),
        flag_index(catalog, bare) matches Some(i) && catalog[i].kind == FlagKind::Boolean,
    ensures
        assignment_of(catalog, bare) == assignment_of(catalog, join(bare, true_text())),
        assignment_of(catalog, bare) == Some(
            Assignment { index: flag_index(catalog, bare)->0, value: Value::Bool(true) },
        ),
{
    lemma_split_of_bare_name(bare);
    lemma_split_of_join(bare, true_text());
}

/// In any token sequence, a token without `=` that names a boolean flag
/// may be replaced by the same name followed by `=true`, and the load
/// leaves the same values.
pub proof fn law_bare_name_is_shorthand_for_true(
    catalog: Seq<EntryView>,
    tokens: Seq<Seq<char>>,
    k: int,
)
    requires
        0 <= k < tokens.len(),
        is_flag_name(tokens[k]),
        flag_index(catalog, tokens[k]) matches Some(i) && catalog[i].kind == FlagKind::Boolean,
    ensures
        loaded_values(catalog, tokens) == loaded_values(
            catalog,
            tokens.update(k, join(tokens[k], true_text())),
        ),
{
    lemma_bare_name_assigns_true(catalog, tokens[k]);
    lemma_values_depend_on_assignments(
        catalog,
        default_values(catalog),
        tokens,
        tokens.update(k, join(tokens[k], true_text())),
    );
}

/// A token whose name is not in the catalog changes nothing: the load
/// leaves what it would leave without that token.
pub proof fn law_unknown_name_is_skipped(state: RegistryView, tokens: Seq<Seq<char>>, k: int)
    requires
        0 <= k < tokens.len(),
        flag_index(state.catalog, split_token(tokens[k]).name) is None,
    ensures
        state.loaded(tokens) == state.loaded(tokens.remove(k)),
{
    lemma_skipped_token_can_be_left_out(state.catalog, default_values(state.catalog), tokens, k);
}

/// A token whose value does not coerce to the kind of the flag it names
/// changes nothing: the load leaves what it would leave without that token.
pub proof fn law_malformed_value_is_skipped(state: RegistryView, tokens: Seq<Seq<char>>, k: int)
    requires
        0 <= k < tokens.len(),
        flag_index(state.catalog, split_token(tokens[k]).name) matches Some(i)
            && split_token(tokens[k]).value matches Some(text) && coerce_spec(
            state.catalog[i].kind,
            text,
        ) is None,
    ensures
        state.loaded(tokens) == state.loaded(tokens.remove(k)),
{
    lemma_skipped_token_can_be_left_out(state.catalog, default_values(state.catalog), tokens, k);
}

/// A token without `=` that names a flag which is not boolean changes
/// nothing: the load leaves what it would leave without that token.
pub proof fn law_bare_name_of_other_kind_is_skipped(
    state: RegistryView,
    tokens: Seq<Seq<char>>,
    k: int,
)
    requires
        0 <= k < tokens.len(),
        split_token(tokens[k]).value is None,
        flag_index(state.catalog, tokens[k]) matches Some(i) && state.catalog[i].kind
            != FlagKind::Boolean,
    ensures
        state.loaded(tokens) == state.loaded(tokens.remove(k)),
{
    lemma_first_occurrence_cases(tokens[k], '=');
    lemma_skipped_token_can_be_left_out(state.catalog, default_values(state.catalog), tokens, k);
}

/// No operation changes the catalog, and none switches the override off.
pub proof fn lemma_run_keeps_catalog_and_override(state: RegistryView, operations: Seq<Operation>)
    ensures
        run(state, operations).catalog == state.catalog,
        state.testing_override ==> run(state, operations).testing_override,
    decreases operations.len(),
{
    if operations.len() > 0 {
        lemma_run_keeps_catalog_and_override(state, operations.drop_last());
    }
}

/// Once the testing override is switched on, whatever was loaded before
/// and whatever is done afterwards, every flag reports its enabled value.
pub proof fn law_override_is_supreme(state: RegistryView, later: Seq<Operation>, i: int)
    requires
        0 <= i < state.catalog.len(),
    ensures
        run(state.overridden(), later).effective_value(i) == state.catalog[i].enabled_value,
{
    lemma_run_keeps_catalog_and_override(state.overridden(), later);
}

/// Every operation leaves a well-formed registry well formed: in every
/// state there is one value of the right kind for each flag of the catalog.
pub proof fn law_operations_keep_registry_well_formed(
    state: RegistryView,
    operations: Seq<Operation>,
)
    requires
        state.wf(),
    ensures
        run(state, operations).wf(),
    decreases operations.len(),
{
    if operations.len() > 0 {
        let before = run(state, operations.drop_last());
        law_operations_keep_registry_well_formed(state, operations.drop_last());
        match operations.last() {
            Operation::Load(tokens) => {
                law_load_keeps_registry_well_formed(before, tokens);
            },
            Operation::SetAllForTesting => {},
        }
    }
}

/// Switching the override on twice is switching it on once.
pub proof fn law_override_is_idempotent(state: RegistryView)
    ensures
        state.overridden().overridden() == state.overridden(),
{
}

/// The effective value of a flag of a well-formed registry is of the flag's
/// kind.
pub proof fn lemma_effective_value_fits(state: RegistryView, i: int)
    requires
        state.wf(),
        0 <= i < state.catalog.len(),
    ensures
        state.effective_value(i).kind() == state.catalog[i].kind,
{
    assert(admissible_at(state.catalog, i));
}

/// The dump has one line for each flag, in catalog order, under the flag's
/// name; and the text of each line, coerced to the flag's kind as a load
/// would coerce it, is the value that a lookup reports.
pub proof fn law_dump_reads_back(state: RegistryView, i: int)
    requires
        state.wf(),
        0 <= i < state.catalog.len(),
    ensures
        state.dump_lines().len() == state.catalog.len(),
        state.dump_lines()[i].flag == state.catalog[i].name,
        state.dump_lines()[i].value == render_spec(state.effective_value(i)),
        coerce_spec(state.catalog[i].kind, state.dump_lines()[i].value) == Some(
            state.effective_value(i),
        ),
{
    lemma_effective_value_fits(state, i);
    lemma_render_then_coerce(state.effective_value(i));
}

} // verus!
