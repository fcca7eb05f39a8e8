//! Drift check between the runtime Chat Completions registry and the pinned
//! specification of the API.
//!
//! The registry is the runtime source of truth for Chat Completions operation
//! identity. The check fails when a registered operation's method, path, or
//! operation ID no longer agrees with the pinned specification, and when an
//! operation declared as a Praxis protocol extension turns out to exist in the
//! specification after all.
use vstd::prelude::*;
use vstd::string::*;

use crate::chat_completions::{
    operation_specs, registry, ChatCompletionsOperationSpec, PROTOCOL_EXTENSION_OPERATION_IDS,
};
use crate::text::{decimal, decimal_string, join, joined, option_text, str_eq, text_of, texts};

verus! {

/// Method and path of an operation in the specification.
#[derive(Debug)]
pub struct OperationKey {
    /// HTTP method, in capitals.
    pub method: String,
    /// Path template.
    pub path: String,
}

/// One operation of the specification.
#[derive(Debug)]
pub struct SpecOperation {
    /// Method and path.
    pub key: OperationKey,
    /// Operation ID, where the specification gives one.
    pub operation_id: Option<String>,
}

/// Outcome of comparing one registered operation with the pinned specification.
#[derive(Debug)]
pub enum Comparison {
    /// Operation agrees with the specification, or is an expected extension.
    Agrees,
    /// Operation disagrees; carries the human-readable reason.
    Drifted(String),
}

/// The reason why a registered operation disagrees with the specification, if it
/// does. `found` is the operation ID that the specification gives it.
pub open spec fn drift(
    method: Seq<char>,
    spec_path: Seq<char>,
    registered_id: Seq<char>,
    found: Option<Seq<char>>,
    is_extension: bool,
) -> Option<Seq<char>> {
    match found {
        Some(operation_id) => if is_extension {
            Some(
                method + " "@ + spec_path
                    + " is declared a Praxis protocol extension but the pinned specification now defines it as "@
                    + operation_id,
            )
        } else if operation_id == registered_id {
            None
        } else {
            Some(
                method + " "@ + spec_path + " registers operation ID "@ + registered_id
                    + " but the pinned specification says "@ + operation_id,
            )
        },
        None => if is_extension {
            None
        } else {
            Some(
                method + " "@ + spec_path
                    + " is registered but absent from the pinned specification"@,
            )
        },
    }
}

/// Compare one registered operation with the pinned specification.
pub fn compare(
    method: &str,
    spec_path: &str,
    registered_id: &str,
    found: Option<&str>,
    is_extension: bool,
) -> (comparison: Comparison)
    ensures
        match comparison {
            Comparison::Agrees => drift(
                method@,
                spec_path@,
                registered_id@,
                text_of(found),
                is_extension,
            ) is None,
            Comparison::Drifted(reason) => drift(
                method@,
                spec_path@,
                registered_id@,
                text_of(found),
                is_extension,
            ) == Some(reason@),
        },
{
    let mut reason = method.to_owned();
    reason.append(" ");
    reason.append(spec_path);
    if is_extension {
        return match found {
            Some(operation_id) => {
                reason.append(
                    " is declared a Praxis protocol extension but the pinned specification now defines it as ",
                );
                reason.append(operation_id);
                Comparison::Drifted(reason)
            },
            None => Comparison::Agrees,
        };
    }
    match found {
        Some(operation_id) => {
            if str_eq(operation_id, registered_id) {
                return Comparison::Agrees;
            }
            reason.append(" registers operation ID ");
            reason.append(registered_id);
            reason.append(" but the pinned specification says ");
            reason.append(operation_id);
            Comparison::Drifted(reason)
        },
        None => {
            reason.append(" is registered but absent from the pinned specification");
            Comparison::Drifted(reason)
        },
    }
}

/// The operation ID of the first operation with a method and a path.
pub open spec fn specified_id(
    operations: Seq<SpecOperation>,
    method: Seq<char>,
    path: Seq<char>,
) -> Option<Seq<char>>
    decreases operations.len(),
{
    if operations.len() == 0 {
        None
    } else if operations[0].key.method@ == method && operations[0].key.path@ == path {
        option_text(operations[0].operation_id)
    } else {
        specified_id(operations.drop_first(), method, path)
    }
}

/// Find the operation ID of the first operation with a method and a path.
fn find_id<'a>(operations: &'a [SpecOperation], method: &str, path: &str) -> (id: Option<&'a str>)
    ensures
        text_of(id) == specified_id(operations@, method@, path@),
{
    assert(operations@.skip(0) =~= operations@);
    for i in 0..operations.len()
        invariant
            specified_id(operations@, method@, path@) == specified_id(
                operations@.skip(i as int),
                method@,
                path@,
            ),
    {
        assert(operations@.skip(i as int).drop_first() =~= operations@.skip(i + 1));
        let candidate = &operations[i];
        if str_eq(candidate.key.method.as_str(), method) && str_eq(
            candidate.key.path.as_str(),
            path,
        ) {
            return match &candidate.operation_id {
                Some(id) => Some(id.as_str()),
                None => None,
            };
        }
    }
    None
}

/// Whether Praxis defines an operation itself.
pub open spec fn is_protocol_extension(operation_id: Seq<char>) -> bool {
    exists|i: int|
        0 <= i < PROTOCOL_EXTENSION_OPERATION_IDS@.len()
            && (#[trigger] PROTOCOL_EXTENSION_OPERATION_IDS@[i])@ == operation_id
}

/// Whether Praxis defines an operation itself.
fn is_extension_id(operation_id: &str) -> (extension: bool)
    ensures
        extension == is_protocol_extension(operation_id@),
{
    let ids = PROTOCOL_EXTENSION_OPERATION_IDS;
    for i in 0..ids.len()
        invariant
            ids == PROTOCOL_EXTENSION_OPERATION_IDS,
            forall|j: int| 0 <= j < i ==> (#[trigger] ids@[j])@ != operation_id@,
    {
        if str_eq(ids[i], operation_id) {
            return true;
        }
    }
    false
}

/// Why a registry entry disagrees with the specification, if it does.
pub open spec fn entry_drift(
    entry: ChatCompletionsOperationSpec,
    operations: Seq<SpecOperation>,
) -> Option<Seq<char>> {
    drift(
        entry.definition.method.text(),
        entry.definition.spec_path@,
        entry.definition.operation_id@,
        specified_id(operations, entry.definition.method.text(), entry.definition.spec_path@),
        is_protocol_extension(entry.definition.operation_id@),
    )
}

/// The reasons of all registry entries that disagree, in registry order.
pub open spec fn drift_reasons(
    entries: Seq<ChatCompletionsOperationSpec>,
    operations: Seq<SpecOperation>,
) -> Seq<Seq<char>>
    decreases entries.len(),
{
    if entries.len() == 0 {
        Seq::empty()
    } else {
        let before = drift_reasons(entries.drop_last(), operations);
        match entry_drift(entries.last(), operations) {
            Some(reason) => before.push(reason),
            None => before,
        }
    }
}

/// How many registry entries are protocol extensions.
pub open spec fn extension_count(entries: Seq<ChatCompletionsOperationSpec>) -> nat
    decreases entries.len(),
{
    if entries.len() == 0 {
        0
    } else {
        extension_count(entries.drop_last()) + if is_protocol_extension(
            entries.last().definition.operation_id@,
        ) {
            1nat
        } else {
            0nat
        }
    }
}

/// Counts and failures accumulated over the registry.
#[derive(Debug)]
pub struct Tally {
    /// Specification-owned operations compared.
    pub checked: usize,
    /// Praxis protocol extensions seen.
    pub extensions: usize,
    /// Human-readable drift reasons.
    pub failures: Vec<String>,
}

/// Compare every registered operation against the projected specification.
pub fn tally(operations: &[SpecOperation]) -> (tally: Tally)
    ensures
        tally.extensions == extension_count(registry()),
        tally.checked + tally.extensions == registry().len(),
        texts(tally.failures@) == drift_reasons(registry(), operations@),
{
    let mut checked: usize = 0;
    let mut extensions: usize = 0;
    let mut failures: Vec<String> = Vec::new();
    let entries = operation_specs();
    assert(texts(failures@) =~= drift_reasons(entries@.take(0), operations@));
    for i in 0..entries.len()
        invariant
            entries@ == registry(),
            extensions == extension_count(entries@.take(i as int)),
            checked + extensions == i,
            texts(failures@) == drift_reasons(entries@.take(i as int), operations@),
    {
        assert(entries@.take(i + 1).drop_last() =~= entries@.take(i as int));
        let entry = &entries[i].definition;
        let is_extension = is_extension_id(entry.operation_id);
        if is_extension {
            extensions = extensions + 1;
        } else {
            checked = checked + 1;
        }
        let found = find_id(operations, entry.method.as_str(), entry.spec_path);
        let comparison = compare(
            entry.method.as_str(),
            entry.spec_path,
            entry.operation_id,
            found,
            is_extension,
        );
        if let Comparison::Drifted(reason) = comparison {
            let ghost before = failures@;
            failures.push(reason);
            assert(texts(failures@) =~= texts(before).push(reason@));
        }
    }
    assert(entries@.take(entries@.len() as int) =~= entries@);
    Tally { checked, extensions, failures }
}

/// The report on a registry that agrees with the specification.
pub open spec fn agreement_report(checked: nat, extensions: nat) -> Seq<char> {
    "chat completions registry matches the pinned specification: "@ + decimal(checked)
        + " operations checked, "@ + decimal(extensions) + " protocol extensions"@
}

/// Whether a report says what the registry's comparison with the operations of a
/// specification gives: the counts where all entries agree, and otherwise the
/// reasons, one to a line.
pub open spec fn is_report(report: Result<String, String>, operations: Seq<SpecOperation>) -> bool {
    let reasons = drift_reasons(registry(), operations);
    let extensions = extension_count(registry());
    match report {
        Ok(text) => reasons.len() == 0 && text@ == agreement_report(
            (registry().len() - extensions) as nat,
            extensions,
        ),
        Err(text) => reasons.len() > 0 && text@ == joined(reasons, "\n"@),
    }
}

/// Compare the runtime Chat Completions registry against the operations of the
/// pinned specification, or hand on why these could not be loaded.
///
/// # Errors
///
/// Returns the reason that `loaded` gives, or the reasons of all operations that
/// drifted, one to a line.
pub fn check_loaded(loaded: Result<Vec<SpecOperation>, String>) -> (report: Result<String, String>)
    ensures
        match loaded {
            Ok(operations) => is_report(report, operations@),
            Err(reason) => report == Err::<String, String>(reason),
        },
{
    match loaded {
        Ok(operations) => check(operations.as_slice()),
        Err(reason) => Err(reason),
    }
}

/// Compare the runtime Chat Completions registry against the operations of the
/// pinned specification.
///
/// # Errors
///
/// Returns the reasons of all operations that drifted, one to a line.
pub fn check(operations: &[SpecOperation]) -> (report: Result<String, String>)
    ensures
        is_report(report, operations@),
{
    let Tally { checked, extensions, failures } = tally(operations);
    assert(texts(failures@).len() == failures@.len());
    if failures.len() == 0 {
        let mut text = "chat completions registry matches the pinned specification: ".to_owned();
        text.append(decimal_string(checked).as_str());
        text.append(" operations checked, ");
        text.append(decimal_string(extensions).as_str());
        text.append(" protocol extensions");
        Ok(text)
    } else {
        Err(join(&failures, "\n"))
    }
}

// -----------------------------------------------------------------------------
// Laws
// -----------------------------------------------------------------------------

/// An operation agrees with the specification exactly when the specification
/// gives it the registered ID or, for a protocol extension, does not have it.
pub proof fn law_agreement(
    method: Seq<char>,
    spec_path: Seq<char>,
    registered_id: Seq<char>,
    found: Option<Seq<char>>,
    is_extension: bool,
)
    ensures
        drift(method, spec_path, registered_id, found, is_extension) is None <==> if is_extension {
            found is None
        } else {
            found == Some(registered_id)
        },
{
}

/// The check passes exactly when every entry agrees.
pub proof fn law_every_entry_is_compared(
    entries: Seq<ChatCompletionsOperationSpec>,
    operations: Seq<SpecOperation>,
)
    ensures
        drift_reasons(entries, operations).len() == 0 <==> forall|i: int|
            0 <= i < entries.len() ==> entry_drift(#[trigger] entries[i], operations) is None,
        forall|reason: Seq<char>|
            #![trigger drift_reasons(entries, operations).contains(reason)]
            drift_reasons(entries, operations).contains(reason) <==> exists|i: int|
                0 <= i < entries.len() && entry_drift(#[trigger] entries[i], operations) == Some(
                    reason,
                ),
    decreases entries.len(),
{
    let reasons = drift_reasons(entries, operations);
    if entries.len() > 0 {
        let shorter = entries.drop_last();
        let before = drift_reasons(shorter, operations);
        law_every_entry_is_compared(shorter, operations);
        assert forall|reason: Seq<char>| #[trigger] reasons.contains(reason) implies exists|i: int|
            0 <= i < entries.len() && entry_drift(#[trigger] entries[i], operations) == Some(
                reason,
            ) by {
            if before.contains(reason) {
                let i = choose|i: int|
                    0 <= i < shorter.len() && entry_drift(#[trigger] shorter[i], operations)
                        == Some(reason);
                assert(entries[i] == shorter[i]);
            } else {
                let k = choose|k: int| 0 <= k < reasons.len() && reasons[k] == reason;
                if k < before.len() {
                    assert(before[k] == reason);
                }
                assert(entry_drift(entries[entries.len() - 1], operations) == Some(reason));
            }
        }
        assert forall|i: int| 0 <= i < entries.len() implies match entry_drift(
            #[trigger] entries[i],
            operations,
        ) {
            Some(reason) => reasons.contains(reason),
            None => true,
        } by {
            if let Some(reason) = entry_drift(entries[i], operations) {
                if i < shorter.len() {
                    assert(shorter[i] == entries[i]);
                    assert(before.contains(reason));
                    let k = choose|k: int| 0 <= k < before.len() && before[k] == reason;
                    assert(reasons[k] == reason);
                } else {
                    assert(reasons.last() == reason);
                }
            }
        }
        if reasons.len() > 0 {
            assert(reasons.contains(reasons[0]));
        }
    }
}

/// Praxis defines no Chat Completions operation itself, so all six are checked.
pub proof fn law_no_entry_is_an_extension()
    ensures
        forall|id: Seq<char>| !is_protocol_extension(id),
        extension_count(registry()) == 0,
        registry().len() == 6,
{
    lemma_no_extensions(registry());
}

proof fn lemma_no_extensions(entries: Seq<ChatCompletionsOperationSpec>)
    ensures
        extension_count(entries) == 0,
    decreases entries.len(),
{
    if entries.len() > 0 {
        lemma_no_extensions(entries.drop_last());
    }
}

/// The check passes exactly when the specification gives every registered
/// operation, found by its method and path, the registered ID.
pub proof fn law_check_passes(operations: Seq<SpecOperation>)
    ensures
        drift_reasons(registry(), operations).len() == 0 <==> forall|i: int|
            0 <= i < registry().len() ==> specified_id(
                operations,
                (#[trigger] registry()[i]).definition.method.text(),
                registry()[i].definition.spec_path@,
            ) == Some(registry()[i].definition.operation_id@),
{
    law_every_entry_is_compared(registry(), operations);
    law_no_entry_is_an_extension();
    assert forall|i: int| 0 <= i < registry().len() implies (entry_drift(
        #[trigger] registry()[i],
        operations,
    ) is None <==> specified_id(
        operations,
        registry()[i].definition.method.text(),
        registry()[i].definition.spec_path@,
    ) == Some(registry()[i].definition.operation_id@)) by {}
}

/// The report on a registry that agrees says that six operations were checked and
/// that there are no protocol extensions.
pub proof fn law_agreement_report(report: Result<String, String>, operations: Seq<SpecOperation>)
    requires
        is_report(report, operations),
    ensures
        drift_reasons(registry(), operations).len() == 0 <==> report is Ok,
        report matches Ok(text) ==> text@
            == "chat completions registry matches the pinned specification: 6 operations checked, 0 protocol extensions"@,
{
    law_no_entry_is_an_extension();
    reveal_strlit("chat completions registry matches the pinned specification: ");
    reveal_strlit(" operations checked, ");
    reveal_strlit(" protocol extensions");
    reveal_strlit(
        "chat completions registry matches the pinned specification: 6 operations checked, 0 protocol extensions",
    );
    assert(agreement_report(6, 0)
        =~= "chat completions registry matches the pinned specification: 6 operations checked, 0 protocol extensions"@);
}

/// What a comparison says of each way to disagree: it names the operation by its
/// method and path, and the operation IDs that are at odds.
pub proof fn law_drift_reasons(
    method: Seq<char>,
    spec_path: Seq<char>,
    registered_id: Seq<char>,
    found: Seq<char>,
)
    ensures
        drift(method, spec_path, registered_id, Some(registered_id), false) is None,
        drift(method, spec_path, registered_id, None, true) is None,
        found != registered_id ==> drift(method, spec_path, registered_id, Some(found), false)
            == Some(
            method + " "@ + spec_path + " registers operation ID "@ + registered_id
                + " but the pinned specification says "@ + found,
        ),
        drift(method, spec_path, registered_id, None, false) == Some(
            method + " "@ + spec_path + " is registered but absent from the pinned specification"@,
        ),
        drift(method, spec_path, registered_id, Some(found), true) == Some(
            method + " "@ + spec_path
                + " is declared a Praxis protocol extension but the pinned specification now defines it as "@
                + found,
        ),
{
}

/// The ID that a specification gives to a method and path is that of its first
/// operation with both, and none where there is no such operation.
pub proof fn law_specified_id(
    operations: Seq<SpecOperation>,
    method: Seq<char>,
    path: Seq<char>,
    at: int,
)
    requires
        0 <= at <= operations.len(),
        forall|i: int|
            0 <= i < at ==> !((#[trigger] operations[i]).key.method@ == method
                && operations[i].key.path@ == path),
    ensures
        at == operations.len() ==> specified_id(operations, method, path) is None,
        at < operations.len() && operations[at].key.method@ == method && operations[at].key.path@
            == path ==> specified_id(operations, method, path) == (match operations[at].operation_id {
            Some(id) => Some(id@),
            None => None,
        }),
    decreases operations.len(),
{
    if operations.len() > 0 && at > 0 {
        let rest = operations.drop_first();
        assert(operations[0] == operations[0]);
        assert forall|i: int| 0 <= i < at - 1 implies !((#[trigger] rest[i]).key.method@ == method
            && rest[i].key.path@ == path) by {
            assert(rest[i] == operations[i + 1]);
        }
        law_specified_id(rest, method, path, at - 1);
    }
}

/// An entry is compared under its own method, path and ID.
pub proof fn law_entry_is_compared_by_its_key(
    entry: ChatCompletionsOperationSpec,
    operations: Seq<SpecOperation>,
)
    ensures
        ({
            let definition = entry.definition;
            let found = specified_id(operations, definition.method.text(), definition.spec_path@);
            &&& found == Some(definition.operation_id@) ==> entry_drift(entry, operations) is None
            &&& found is None ==> entry_drift(entry, operations) == Some(
                definition.method.text() + " "@ + definition.spec_path@
                    + " is registered but absent from the pinned specification"@,
            )
            &&& found is Some && found != Some(definition.operation_id@) ==> entry_drift(
                entry,
                operations,
            ) == Some(
                definition.method.text() + " "@ + definition.spec_path@
                    + " registers operation ID "@ + definition.operation_id@
                    + " but the pinned specification says "@ + found->Some_0,
            )
        }),
{
    law_no_entry_is_an_extension();
}

/// The reasons of two lists of entries are those of the first and then those of the
/// second: in order, each once, none left out.
pub proof fn law_drift_reasons_in_order(
    a: Seq<ChatCompletionsOperationSpec>,
    b: Seq<ChatCompletionsOperationSpec>,
    entry: ChatCompletionsOperationSpec,
    operations: Seq<SpecOperation>,
)
    ensures
        drift_reasons(a + b, operations) == drift_reasons(a, operations) + drift_reasons(
            b,
            operations,
        ),
        drift_reasons(seq![entry], operations) == (match entry_drift(entry, operations) {
            Some(reason) => seq![reason],
            None => Seq::empty(),
        }),
    decreases b.len(),
{
    assert(drift_reasons(seq![entry].drop_last(), operations) =~= Seq::empty());
    assert(drift_reasons(seq![entry], operations) =~= (match entry_drift(entry, operations) {
        Some(reason) => seq![reason],
        None => Seq::empty(),
    }));
    if b.len() == 0 {
        assert(a + b =~= a);
        assert(drift_reasons(a, operations) + drift_reasons(b, operations) =~= drift_reasons(
            a,
            operations,
        ));
    } else {
        law_drift_reasons_in_order(a, b.drop_last(), entry, operations);
        assert((a + b).drop_last() =~= a + b.drop_last());
        assert(drift_reasons(a + b, operations) =~= drift_reasons(a, operations) + drift_reasons(
            b,
            operations,
        ));
    }
}

/// A failed check reports the reasons of all entries that disagree, one to a line.
pub proof fn law_drift_report(report: Result<String, String>, operations: Seq<SpecOperation>)
    requires
        is_report(report, operations),
    ensures
        report is Err <==> drift_reasons(registry(), operations).len() > 0,
        report matches Err(text) ==> text@ == joined(drift_reasons(registry(), operations), "\n"@),
{
}

} // verus!
