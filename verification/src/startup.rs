//! Decisions of process startup and supervision.

use vstd::prelude::*;
use vstd::string::*;

use crate::chain::provider::{ProviderError, RpcErrorCategory};
use crate::chain::ChainError;
use crate::collections::{
    ordered_entries, strictly_increasing, value_of, value_of_with_value, with_key,
    with_key_is_insertion, with_value, OrderedMap, OrderedSet,
};
use crate::config::text::{
    text_before, text_before_from, text_order_is_total, text_order_is_transitive,
};
use crate::config::{
    Duration, RpcRole, RuntimeMode, SigningConfig, ValidatedAppConfig, ValidatedRpcConfig,
    ValidatedVaultConfig,
};
use crate::endpoint::{check_signer_endpoint, plain_https_at, url_parts, SignerEndpointFailure};
use crate::primitives::Address;
use crate::protocol_lock::RemoteSignerIdentity;

verus! {

/// Consecutive failed polls after which an operator is alerted.
pub const PERSISTENT_CHAIN_FAILURE_THRESHOLD: u32 = 3;

/// What texts hold.
pub open spec fn text_views(texts: Seq<String>) -> Seq<Seq<char>> {
    Seq::new(texts.len(), |i: int| texts[i]@)
}

/// Texts behind a common prefix.
pub open spec fn prefixed(prefix: Seq<char>, texts: Seq<String>) -> Seq<Seq<char>> {
    Seq::new(texts.len(), |i: int| prefix + texts[i]@)
}

/// The first `count` lines, each but the first behind a separator.
pub open spec fn joined(lines: Seq<Seq<char>>, separator: Seq<char>, count: int) -> Seq<char>
    decreases count,
{
    if count <= 0 {
        Seq::empty()
    } else if count == 1 {
        lines[0]
    } else {
        joined(lines, separator, count - 1) + separator + lines[count - 1]
    }
}

/// Report of missing deployment inputs and environment references.
pub open spec fn missing_report(lock_inputs: Seq<String>, environment: Seq<String>) -> Seq<char> {
    let lines = prefixed("deployment."@, lock_inputs) + prefixed("environment."@, environment);
    "missing inputs:\n- "@ + joined(lines, "\n- "@, lines.len() as int)
}

fn append_line(report: &mut String, prefix: &str, name: &String, first: bool)
    ensures
        final(report)@ == old(report)@ + (if first {
            Seq::empty()
        } else {
            "\n- "@
        }) + (prefix@ + name@),
{
    if !first {
        report.append("\n- ");
    }
    report.append(prefix);
    report.append(name.as_str());
    assert(report@ =~= old(report)@ + (if first {
        Seq::empty()
    } else {
        "\n- "@
    }) + (prefix@ + name@));
}

/// Formats every missing deployment input and environment reference.
pub fn format_missing_inputs(lock_inputs: &Vec<String>, environment: &Vec<String>) -> (r: String)
    ensures
        r@ == missing_report(lock_inputs@, environment@),
{
    let ghost head = "missing inputs:\n- "@;
    let ghost first = prefixed("deployment."@, lock_inputs@);
    let ghost lines = first + prefixed("environment."@, environment@);
    let mut report = "missing inputs:\n- ".to_owned();
    assert(report@ =~= head + joined(lines, "\n- "@, 0));
    let mut i: usize = 0;
    while i < lock_inputs.len()
        invariant
            i <= lock_inputs.len(),
            head == "missing inputs:\n- "@,
            first == prefixed("deployment."@, lock_inputs@),
            lines == first + prefixed("environment."@, environment@),
            report@ == head + joined(lines, "\n- "@, i as int),
        decreases lock_inputs.len() - i,
    {
        assert(lines[i as int] == "deployment."@ + lock_inputs@[i as int]@);
        append_line(&mut report, "deployment.", &lock_inputs[i], i == 0);
        i = i + 1;
        assert(report@ =~= head + joined(lines, "\n- "@, i as int));
    }
    let mut j: usize = 0;
    while j < environment.len()
        invariant
            j <= environment.len(),
            i == lock_inputs.len(),
            head == "missing inputs:\n- "@,
            first == prefixed("deployment."@, lock_inputs@),
            lines == first + prefixed("environment."@, environment@),
            report@ == head + joined(lines, "\n- "@, i + j),
        decreases environment.len() - j,
    {
        assert(lines[i + j] == "environment."@ + environment@[j as int]@);
        append_line(&mut report, "environment.", &environment[j], i == 0 && j == 0);
        j = j + 1;
        assert(report@ =~= head + joined(lines, "\n- "@, i + j));
    }
    report
}

/// Lines each behind a line break and a dash.
pub open spec fn listed(lines: Seq<String>, count: int) -> Seq<char>
    decreases count,
{
    if count <= 0 {
        Seq::empty()
    } else {
        listed(lines, count - 1) + "\n- "@ + lines[count - 1]@
    }
}

/// Formats the failures of a release gate.
pub fn format_release_failures(stage: &String, failures: &Vec<String>) -> (r: String)
    ensures
        r@ == stage@ + " release gate failed:"@ + listed(failures@, failures@.len() as int),
{
    let ghost head = stage@ + " release gate failed:"@;
    let mut report = stage.clone();
    report.append(" release gate failed:");
    assert(report@ =~= head + listed(failures@, 0));
    let mut i: usize = 0;
    while i < failures.len()
        invariant
            i <= failures.len(),
            report@ == head + listed(failures@, i as int),
        decreases failures.len() - i,
    {
        report.append("\n- ");
        report.append(failures[i].as_str());
        i = i + 1;
        assert(report@ =~= head + listed(failures@, i as int));
    }
    report
}

/// Formats the environment references that are missing at execute authorization.
pub fn format_missing_environment(missing: &Vec<String>) -> (r: String)
    ensures
        r@ == "missing runtime environment references: "@ + joined(
            text_views(missing@),
            ", "@,
            missing@.len() as int,
        ),
{
    let ghost head = "missing runtime environment references: "@;
    let ghost names = text_views(missing@);
    let mut report = "missing runtime environment references: ".to_owned();
    assert(report@ =~= head + joined(names, ", "@, 0));
    let mut i: usize = 0;
    while i < missing.len()
        invariant
            i <= missing.len(),
            names == text_views(missing@),
            report@ == head + joined(names, ", "@, i as int),
        decreases missing.len() - i,
    {
        assert(names[i as int] == missing@[i as int]@);
        if i > 0 {
            report.append(", ");
        }
        report.append(missing[i].as_str());
        i = i + 1;
        assert(report@ =~= head + joined(names, ", "@, i as int));
    }
    report
}

/// Number of leading names from index `from` on that order before a name.
pub open spec fn name_place_from(names: Seq<Seq<char>>, name: Seq<char>, from: int) -> int
    decreases names.len() - from,
{
    if from >= names.len() || !text_before_from(names[from], name, 0) {
        from
    } else {
        name_place_from(names, name, from + 1)
    }
}

/// Ordered distinct names with one more.
pub open spec fn with_name(names: Seq<Seq<char>>, name: Seq<char>) -> Seq<Seq<char>> {
    let place = name_place_from(names, name, 0);
    if place < names.len() && names[place] == name {
        names
    } else {
        names.insert(place, name)
    }
}

fn insert_name(names: &mut Vec<String>, name: &String)
    ensures
        text_views(final(names)@) == with_name(text_views(old(names)@), name@),
{
    let ghost held = text_views(names@);
    let mut place: usize = 0;
    while place < names.len() && text_before(names[place].as_str(), name.as_str())
        invariant
            place <= names.len(),
            *names == *old(names),
            held == text_views(names@),
            name_place_from(held, name@, 0) == name_place_from(held, name@, place as int),
        decreases names.len() - place,
    {
        place = place + 1;
    }
    if place < names.len() {
        assert(held[place as int] == names@[place as int]@);
        if names[place] == *name {
            return ;
        }
    }
    names.insert(place, name.clone());
    assert(text_views(names@) =~= held.insert(place as int, name@));
}

/// Whether names are in strictly increasing order.
pub open spec fn increasing(names: Seq<Seq<char>>) -> bool {
    forall|i: int, j: int|
        0 <= i < j < names.len() ==> text_before_from(#[trigger] names[i], #[trigger] names[j], 0)
}

proof fn lemma_name_place(names: Seq<Seq<char>>, name: Seq<char>, from: int)
    requires
        0 <= from <= names.len(),
    ensures
        from <= name_place_from(names, name, from) <= names.len(),
        forall|i: int|
            from <= i < name_place_from(names, name, from) ==> text_before_from(
                #[trigger] names[i],
                name,
                0,
            ),
        name_place_from(names, name, from) < names.len() ==> !text_before_from(
            names[name_place_from(names, name, from)],
            name,
            0,
        ),
    decreases names.len() - from,
{
    if from < names.len() && text_before_from(names[from], name, 0) {
        lemma_name_place(names, name, from + 1);
    }
}

/// A name added to ordered distinct names is among them, every other name stays, no name comes
/// with it, and the names stay ordered and distinct.
pub proof fn adding_a_name_keeps_the_order(names: Seq<Seq<char>>, name: Seq<char>)
    requires
        increasing(names),
    ensures
        increasing(with_name(names, name)),
        forall|other: Seq<char>|
            with_name(names, name).contains(other) <==> names.contains(other) || other == name,
{
    let place = name_place_from(names, name, 0);
    lemma_name_place(names, name, 0);
    let result = with_name(names, name);
    if !(place < names.len() && names[place] == name) {
        assert forall|i: int, j: int| 0 <= i < j < result.len() implies text_before_from(
            #[trigger] result[i],
            #[trigger] result[j],
            0,
        ) by {
            if j == place {
                assert(result[i] == names[i]);
            } else if i == place {
                assert(result[j] == names[j - 1]);
                text_order_is_total(names[place], name, 0);
                if j - 1 > place {
                    text_order_is_transitive(name, names[place], names[j - 1], 0);
                }
            } else {
                let a = if i < place { i } else { i - 1 };
                let b = if j < place { j } else { j - 1 };
                assert(result[i] == names[a] && result[j] == names[b]);
            }
        }
    }
    assert forall|other: Seq<char>| result.contains(other) implies names.contains(other) || other
        == name by {
        let i = choose|i: int| 0 <= i < result.len() && result[i] == other;
        if !(place < names.len() && names[place] == name) && i != place {
            let a = if i < place { i } else { i - 1 };
            assert(names[a] == other);
        }
    }
    assert forall|other: Seq<char>| names.contains(other) || other == name implies result.contains(
        other,
    ) by {
        if place < names.len() && names[place] == name {
            assert(result == names);
        } else {
            assert(result[place] == name);
            if names.contains(other) {
                let i = choose|i: int| 0 <= i < names.len() && names[i] == other;
                let a = if i < place { i } else { i + 1 };
                assert(result[a] == other);
            }
        }
    }
}

/// Environment references of the first `count` providers.
pub open spec fn provider_environment(
    providers: Seq<ValidatedRpcConfig>,
    count: int,
) -> Seq<Seq<char>>
    decreases count,
{
    if count <= 0 {
        Seq::empty()
    } else {
        let provider = providers[count - 1];
        let names = with_name(provider_environment(providers, count - 1), provider.url_env@);
        match provider.websocket_url_env {
            Some(websocket) => with_name(names, websocket@),
            None => names,
        }
    }
}

/// Environment references with those that signing in Execute mode needs.
pub open spec fn with_signing_environment(
    names: Seq<Seq<char>>,
    mode: RuntimeMode,
    signing: SigningConfig,
    remote: RemoteSignerIdentity,
) -> Seq<Seq<char>> {
    if mode != RuntimeMode::Execute {
        names
    } else {
        match signing {
            SigningConfig::RemoteSigner { endpoint_env } => with_name(
                with_name(
                    with_name(
                        with_name(names, endpoint_env@),
                        remote.client_identity_env@,
                    ),
                    remote.authentication_secret_env@,
                ),
                "MORPHO_V2_LOCK_DIR"@,
            ),
            SigningConfig::LocalDevelopment { private_key_env, .. } => with_name(
                names,
                private_key_env@,
            ),
        }
    }
}

/// Every environment reference that a configuration needs, in order.
pub open spec fn environment_of(app: ValidatedAppConfig, remote: RemoteSignerIdentity) -> Seq<
    Seq<char>,
> {
    let providers = provider_environment(app.chain.rpc@, app.chain.rpc@.len() as int);
    let signing = with_signing_environment(providers, app.node.mode, app.signing, remote);
    let telegram = if app.alerts.telegram.enabled {
        with_name(signing, app.alerts.telegram.bot_token_env@)
    } else {
        signing
    };
    if app.alerts.pagerduty.enabled {
        with_name(telegram, app.alerts.pagerduty.integration_key_env@)
    } else {
        telegram
    }
}

/// Lists every environment reference that a configuration needs, distinct and in order.
pub fn required_environment(app: &ValidatedAppConfig, remote: &RemoteSignerIdentity) -> (r: Vec<
    String,
>)
    ensures
        text_views(r@) == environment_of(*app, *remote),
{
    let mut names: Vec<String> = Vec::new();
    assert(text_views(names@) =~= Seq::empty());
    let mut i: usize = 0;
    while i < app.chain.rpc.len()
        invariant
            i <= app.chain.rpc.len(),
            text_views(names@) == provider_environment(app.chain.rpc@, i as int),
        decreases app.chain.rpc.len() - i,
    {
        insert_name(&mut names, &app.chain.rpc[i].url_env);
        match &app.chain.rpc[i].websocket_url_env {
            Some(websocket) => {
                insert_name(&mut names, websocket);
            },
            None => {},
        }
        i = i + 1;
    }
    if app.node.mode == RuntimeMode::Execute {
        match &app.signing {
            SigningConfig::RemoteSigner { endpoint_env } => {
                insert_name(&mut names, endpoint_env);
                insert_name(&mut names, &remote.client_identity_env);
                insert_name(&mut names, &remote.authentication_secret_env);
                insert_name(&mut names, &"MORPHO_V2_LOCK_DIR".to_owned());
            },
            SigningConfig::LocalDevelopment { private_key_env, .. } => {
                insert_name(&mut names, private_key_env);
            },
        }
    }
    if app.alerts.telegram.enabled {
        insert_name(&mut names, &app.alerts.telegram.bot_token_env);
    }
    if app.alerts.pagerduty.enabled {
        insert_name(&mut names, &app.alerts.pagerduty.integration_key_env);
    }
    names
}

proof fn lemma_provider_environment(providers: Seq<ValidatedRpcConfig>, count: int)
    requires
        0 <= count <= providers.len(),
    ensures
        increasing(provider_environment(providers, count)),
        forall|i: int|
            0 <= i < count ==> provider_environment(providers, count).contains(
                (#[trigger] providers[i]).url_env@,
            ),
    decreases count,
{
    if count > 0 {
        lemma_provider_environment(providers, count - 1);
        let held = provider_environment(providers, count - 1);
        let provider = providers[count - 1];
        adding_a_name_keeps_the_order(held, provider.url_env@);
        if let Some(websocket) = provider.websocket_url_env {
            adding_a_name_keeps_the_order(with_name(held, provider.url_env@), websocket@);
        }
        assert forall|i: int| 0 <= i < count implies provider_environment(
            providers,
            count,
        ).contains((#[trigger] providers[i]).url_env@) by {
            if i < count - 1 {
                assert(held.contains(providers[i].url_env@));
            }
            assert(with_name(held, provider.url_env@).contains(providers[i].url_env@));
        }
    }
}

/// The required environment references are ordered and distinct, and every provider's endpoint
/// reference is among them.
pub proof fn required_environment_is_ordered_and_complete(
    app: ValidatedAppConfig,
    remote: RemoteSignerIdentity,
)
    ensures
        increasing(environment_of(app, remote)),
        forall|i: int|
            0 <= i < app.chain.rpc@.len() ==> environment_of(app, remote).contains(
                (#[trigger] app.chain.rpc@[i]).url_env@,
            ),
{
    let providers = provider_environment(app.chain.rpc@, app.chain.rpc@.len() as int);
    lemma_provider_environment(app.chain.rpc@, app.chain.rpc@.len() as int);
    if app.node.mode == RuntimeMode::Execute {
        match app.signing {
            SigningConfig::RemoteSigner { endpoint_env } => {
                let first = with_name(providers, endpoint_env@);
                let second = with_name(first, remote.client_identity_env@);
                let third = with_name(second, remote.authentication_secret_env@);
                adding_a_name_keeps_the_order(providers, endpoint_env@);
                adding_a_name_keeps_the_order(first, remote.client_identity_env@);
                adding_a_name_keeps_the_order(second, remote.authentication_secret_env@);
                adding_a_name_keeps_the_order(third, "MORPHO_V2_LOCK_DIR"@);
            },
            SigningConfig::LocalDevelopment { private_key_env, .. } => {
                adding_a_name_keeps_the_order(providers, private_key_env@);
            },
        }
    }
    let signing = with_signing_environment(providers, app.node.mode, app.signing, remote);
    adding_a_name_keeps_the_order(signing, app.alerts.telegram.bot_token_env@);
    let telegram = if app.alerts.telegram.enabled {
        with_name(signing, app.alerts.telegram.bot_token_env@)
    } else {
        signing
    };
    adding_a_name_keeps_the_order(telegram, app.alerts.pagerduty.integration_key_env@);
}

/// Names of the first `count` that are not present.
pub open spec fn absent_names(names: Seq<String>, present: Seq<bool>, count: int) -> Seq<Seq<char>>
    decreases count,
{
    if count <= 0 {
        Seq::empty()
    } else if present[count - 1] {
        absent_names(names, present, count - 1)
    } else {
        absent_names(names, present, count - 1).push(names[count - 1]@)
    }
}

/// Selects the required references that the environment does not hold, in order.
pub fn missing_runtime_environment(required: &Vec<String>, present: &Vec<bool>) -> (r: Vec<String>)
    requires
        present@.len() == required@.len(),
    ensures
        text_views(r@) == absent_names(required@, present@, required@.len() as int),
{
    let mut missing: Vec<String> = Vec::new();
    assert(text_views(missing@) =~= Seq::empty());
    let mut i: usize = 0;
    while i < required.len()
        invariant
            i <= required.len(),
            present@.len() == required@.len(),
            text_views(missing@) == absent_names(required@, present@, i as int),
        decreases required.len() - i,
    {
        if !present[i] {
            let ghost held = text_views(missing@);
            missing.push(required[i].clone());
            assert(text_views(missing@) =~= held.push(required@[i as int]@));
        }
        i = i + 1;
    }
    missing
}

/// Whether a provider owns every role.
pub open spec fn owns_roles(provider: ValidatedRpcConfig, roles: Seq<RpcRole>) -> bool {
    forall|i: int| 0 <= i < roles.len() ==> provider.roles@.contains(#[trigger] roles[i])
}

fn owns_all(provider: &ValidatedRpcConfig, roles: &Vec<RpcRole>) -> (r: bool)
    ensures
        r == owns_roles(*provider, roles@),
{
    let mut i: usize = 0;
    while i < roles.len()
        invariant
            i <= roles.len(),
            forall|j: int| 0 <= j < i ==> provider.roles@.contains(#[trigger] roles@[j]),
        decreases roles.len() - i,
    {
        let mut found = false;
        let mut j: usize = 0;
        while j < provider.roles.len()
            invariant
                i < roles.len(),
                j <= provider.roles.len(),
                found == (exists|k: int|
                    0 <= k < j && provider.roles@[k] == roles@[i as int]),
            decreases provider.roles.len() - j,
        {
            if provider.roles[j] == roles[i] {
                found = true;
            }
            j = j + 1;
        }
        if !found {
            assert(!provider.roles@.contains(roles@[i as int]));
            return false;
        }
        i = i + 1;
    }
    true
}

/// Index of the first production-grade provider from index `from` on that owns every role.
pub open spec fn provider_from(
    providers: Seq<ValidatedRpcConfig>,
    roles: Seq<RpcRole>,
    from: int,
) -> Option<int>
    decreases providers.len() - from,
{
    if from >= providers.len() {
        None
    } else if providers[from].production_grade && owns_roles(providers[from], roles) {
        Some(from)
    } else {
        provider_from(providers, roles, from + 1)
    }
}

/// A selected provider is production grade and owns every role, and no earlier one does.
pub proof fn selected_provider_is_the_first_owner(
    providers: Seq<ValidatedRpcConfig>,
    roles: Seq<RpcRole>,
    from: int,
)
    requires
        0 <= from <= providers.len(),
    ensures
        match provider_from(providers, roles, from) {
            Some(index) => from <= index < providers.len() && providers[index].production_grade
                && owns_roles(providers[index], roles) && forall|i: int|
                from <= i < index ==> !((#[trigger] providers[i]).production_grade && owns_roles(
                    providers[i],
                    roles,
                )),
            None => forall|i: int|
                from <= i < providers.len() ==> !((#[trigger] providers[i]).production_grade
                    && owns_roles(providers[i], roles)),
        },
    decreases providers.len() - from,
{
    if from < providers.len() && !(providers[from].production_grade && owns_roles(
        providers[from],
        roles,
    )) {
        selected_provider_is_the_first_owner(providers, roles, from + 1);
    }
}

/// Finds the first production-grade provider that owns every required runtime role.
pub fn provider_for_roles(providers: &Vec<ValidatedRpcConfig>, roles: &Vec<RpcRole>) -> (r: Option<
    usize,
>)
    ensures
        match r {
            Some(index) => provider_from(providers@, roles@, 0) == Some(index as int) && index
                < providers.len(),
            None => provider_from(providers@, roles@, 0) is None,
        },
{
    let mut i: usize = 0;
    while i < providers.len()
        invariant
            i <= providers.len(),
            provider_from(providers@, roles@, 0) == provider_from(providers@, roles@, i as int),
        decreases providers.len() - i,
    {
        if providers[i].production_grade && owns_all(&providers[i], roles) {
            return Some(i);
        }
        i = i + 1;
    }
    None
}

/// Index of the first provider from index `from` on of another name that owns every role.
pub open spec fn independent_from(
    providers: Seq<ValidatedRpcConfig>,
    primary: Seq<char>,
    roles: Seq<RpcRole>,
    from: int,
) -> Option<int>
    decreases providers.len() - from,
{
    if from >= providers.len() {
        None
    } else if providers[from].name@ != primary && owns_roles(providers[from], roles) {
        Some(from)
    } else {
        independent_from(providers, primary, roles, from + 1)
    }
}

/// Finds the first provider of another name than the primary's that owns every role.
pub fn independent_provider(
    providers: &Vec<ValidatedRpcConfig>,
    primary: &String,
    roles: &Vec<RpcRole>,
) -> (r: Option<usize>)
    ensures
        match r {
            Some(index) => independent_from(providers@, primary@, roles@, 0) == Some(index as int)
                && index < providers.len(),
            None => independent_from(providers@, primary@, roles@, 0) is None,
        },
{
    let mut i: usize = 0;
    while i < providers.len()
        invariant
            i <= providers.len(),
            independent_from(providers@, primary@, roles@, 0) == independent_from(
                providers@,
                primary@,
                roles@,
                i as int,
            ),
        decreases providers.len() - i,
    {
        if providers[i].name != *primary && owns_all(&providers[i], roles) {
            return Some(i);
        }
        i = i + 1;
    }
    None
}

/// Whether a chain failure is temporary.
pub open spec fn temporary_chain_failure(error: ChainError) -> bool {
    match error {
        ChainError::Provider(ProviderError::Transport { .. }) => true,
        ChainError::Provider(ProviderError::MissingBlock) => true,
        ChainError::Provider(ProviderError::HttpStatus { status, .. }) => status == 429 || 500
            <= status <= 599,
        ChainError::Provider(ProviderError::Rpc { category, .. }) => !(category is Unknown),
        ChainError::ProviderViewInconsistent => true,
        _ => false,
    }
}

/// Returns whether a chain failure is temporary, so that polling resumes from the durable cursor.
pub fn retryable_chain_error(error: &ChainError) -> (r: bool)
    ensures
        r == temporary_chain_failure(*error),
{
    match error {
        ChainError::Provider(ProviderError::Transport { .. }) => true,
        ChainError::Provider(ProviderError::MissingBlock) => true,
        ChainError::Provider(ProviderError::HttpStatus { status, .. }) => {
            *status == 429 || (500 <= *status && *status <= 599)
        },
        ChainError::Provider(ProviderError::Rpc { category, .. }) => match category {
            RpcErrorCategory::RateLimited => true,
            RpcErrorCategory::ServerUnavailable => true,
            RpcErrorCategory::TransportUnavailable => true,
            RpcErrorCategory::Unknown => false,
        },
        ChainError::ProviderViewInconsistent => true,
        _ => false,
    }
}

/// Outcome of one canonical poll.
#[derive(Clone, Copy, Debug, PartialEq, Eq, Structural)]
pub enum PollOutcome {
    /// The poll succeeded.
    Succeeded,
    /// The poll failed while the process shuts down.
    ShuttingDown,
    /// The poll failed temporarily.
    Temporary,
    /// The poll failed otherwise.
    Failed,
}

/// What follows one canonical poll.
#[derive(Clone, Copy, Debug, PartialEq, Eq, Structural)]
pub enum PollAction {
    /// Polling goes on.
    Proceed,
    /// Polling goes on and the operator is alerted.
    Alert,
    /// The worker restarts.
    Restart,
}

/// Consecutive failures after a poll, and what follows.
pub open spec fn poll_result(failures: u32, outcome: PollOutcome) -> (u32, PollAction) {
    match outcome {
        PollOutcome::Succeeded => (0, PollAction::Proceed),
        PollOutcome::ShuttingDown => (failures, PollAction::Proceed),
        PollOutcome::Temporary => {
            let next = if failures < u32::MAX {
                (failures + 1) as u32
            } else {
                0
            };
            if next == PERSISTENT_CHAIN_FAILURE_THRESHOLD {
                (next, PollAction::Alert)
            } else {
                (next, PollAction::Proceed)
            }
        },
        PollOutcome::Failed => (failures, PollAction::Restart),
    }
}

/// Judges one canonical poll: persistent temporary failures alert the operator once.
pub fn after_poll(failures: u32, outcome: PollOutcome) -> (r: (u32, PollAction))
    ensures
        r == poll_result(failures, outcome),
{
    match outcome {
        PollOutcome::Succeeded => (0, PollAction::Proceed),
        PollOutcome::ShuttingDown => (failures, PollAction::Proceed),
        PollOutcome::Temporary => {
            let next: u32 = if failures < u32::MAX {
                failures + 1
            } else {
                0
            };
            if next == PERSISTENT_CHAIN_FAILURE_THRESHOLD {
                (next, PollAction::Alert)
            } else {
                (next, PollAction::Proceed)
            }
        },
        PollOutcome::Failed => (failures, PollAction::Restart),
    }
}

/// Counter after consecutive temporary failures that follow a success.
pub open spec fn failures_after(count: nat) -> u32
    decreases count,
{
    if count == 0 {
        poll_result(0, PollOutcome::Succeeded).0
    } else {
        poll_result(failures_after((count - 1) as nat), PollOutcome::Temporary).0
    }
}

/// A streak of temporary failures alerts the operator exactly once, at the third.
pub proof fn a_failure_streak_alerts_once(count: nat)
    requires
        0 < count <= u32::MAX,
    ensures
        failures_after(count) == count,
        poll_result(failures_after((count - 1) as nat), PollOutcome::Temporary).1
            == PollAction::Alert <==> count == 3,
    decreases count,
{
    if count > 1 {
        a_failure_streak_alerts_once((count - 1) as nat);
    } else {
        assert(failures_after(0) == 0);
    }
}

/// Why a file's permissions are refused.
#[derive(Clone, Copy, Debug, PartialEq, Eq, Structural)]
pub enum PermissionFailure {
    /// The path is a symbolic link.
    SymbolicLink,
    /// Group or world may write.
    Writable,
}

/// File whose permissions startup inspects.
#[derive(Clone, Copy, Debug, PartialEq, Eq, Structural)]
pub struct FileFacts {
    /// Whether the path is a symbolic link.
    pub is_symlink: bool,
    /// Permission bits.
    pub mode: u32,
}

/// Why a file's permissions are refused, if so.
pub open spec fn permission_failure(file: FileFacts) -> Option<PermissionFailure> {
    if file.is_symlink {
        Some(PermissionFailure::SymbolicLink)
    } else if file.mode & 0o022 != 0 {
        Some(PermissionFailure::Writable)
    } else {
        None
    }
}

/// Refuses a symbolic link and a file that its group or the world may write.
pub fn enforce_non_writable_by_group_or_world(file: FileFacts) -> (r: Result<
    (),
    PermissionFailure,
>)
    ensures
        match permission_failure(file) {
            Some(failure) => r == Err::<(), PermissionFailure>(failure),
            None => r is Ok,
        },
{
    if file.is_symlink {
        return Err(PermissionFailure::SymbolicLink);
    }
    if file.mode & 0o022 != 0 {
        return Err(PermissionFailure::Writable);
    }
    Ok(())
}

/// The masked bits are exactly group write and world write.
pub proof fn masked_bits_are_group_and_world_write(mode: u32)
    ensures
        (mode & 0o022 == 0) == (mode & 0o020 == 0 && mode & 0o002 == 0),
{
    assert((mode & 0o022 == 0) == (mode & 0o020 == 0 && mode & 0o002 == 0)) by (bit_vector);
}

/// Release evidence that a runtime mode and signer need.
#[derive(Clone, Copy, Debug, PartialEq, Eq, Structural)]
pub enum ReleaseDecision {
    /// Not in Execute mode.
    NotApplicable,
    /// Execute with the local test signer.
    TestOnly,
    /// Execute with the remote signer: the evidence is to be validated.
    ValidateEvidence,
}

/// Why release evidence is refused or missing.
#[derive(Clone, Copy, Debug, PartialEq, Eq, Structural)]
pub enum ReleaseRefusal {
    /// Evidence outside Execute mode.
    OnlyInExecute,
    /// Evidence for a local test signer.
    LocalSigner,
    /// Remote signer without evidence.
    MissingEvidence,
}

/// Release evidence that a runtime mode and signer need, given whether some is supplied.
pub open spec fn release_rule(
    mode: RuntimeMode,
    signing: SigningConfig,
    evidence: bool,
) -> Result<ReleaseDecision, ReleaseRefusal> {
    if mode != RuntimeMode::Execute {
        if evidence {
            Err(ReleaseRefusal::OnlyInExecute)
        } else {
            Ok(ReleaseDecision::NotApplicable)
        }
    } else {
        match signing {
            SigningConfig::LocalDevelopment { .. } => if evidence {
                Err(ReleaseRefusal::LocalSigner)
            } else {
                Ok(ReleaseDecision::TestOnly)
            },
            SigningConfig::RemoteSigner { .. } => if evidence {
                Ok(ReleaseDecision::ValidateEvidence)
            } else {
                Err(ReleaseRefusal::MissingEvidence)
            },
        }
    }
}

/// Decides which release evidence startup needs.
pub fn decide_release(mode: RuntimeMode, signing: &SigningConfig, evidence: bool) -> (r: Result<
    ReleaseDecision,
    ReleaseRefusal,
>)
    ensures
        r == release_rule(mode, *signing, evidence),
{
    if mode != RuntimeMode::Execute {
        if evidence {
            return Err(ReleaseRefusal::OnlyInExecute);
        }
        return Ok(ReleaseDecision::NotApplicable);
    }
    match signing {
        SigningConfig::LocalDevelopment { .. } => {
            if evidence {
                Err(ReleaseRefusal::LocalSigner)
            } else {
                Ok(ReleaseDecision::TestOnly)
            }
        },
        SigningConfig::RemoteSigner { .. } => {
            if evidence {
                Ok(ReleaseDecision::ValidateEvidence)
            } else {
                Err(ReleaseRefusal::MissingEvidence)
            }
        },
    }
}

/// Why static checks refuse a configuration.
#[derive(Clone, Copy, Debug, PartialEq, Eq, Structural)]
pub enum DoctorRefusal {
    /// Configuration and protocol lock name different chains.
    ChainMismatch,
    /// The release evidence is refused or missing.
    Release(ReleaseRefusal),
}

/// Outcome of the static checks of a configuration against its protocol lock.
pub open spec fn doctor_rule(
    app: ValidatedAppConfig,
    lock_chain_id: u64,
    evidence: bool,
) -> Result<ReleaseDecision, DoctorRefusal> {
    if app.chain.chain_id != lock_chain_id {
        Err(DoctorRefusal::ChainMismatch)
    } else {
        match release_rule(app.node.mode, app.signing, evidence) {
            Ok(decision) => Ok(decision),
            Err(refusal) => Err(DoctorRefusal::Release(refusal)),
        }
    }
}

/// Checks a configuration against its protocol lock and decides which release evidence it needs.
pub fn static_doctor(app: &ValidatedAppConfig, lock_chain_id: u64, evidence: bool) -> (r: Result<
    ReleaseDecision,
    DoctorRefusal,
>)
    ensures
        r == doctor_rule(*app, lock_chain_id, evidence),
{
    if app.chain.chain_id != lock_chain_id {
        return Err(DoctorRefusal::ChainMismatch);
    }
    match decide_release(app.node.mode, &app.signing, evidence) {
        Ok(decision) => Ok(decision),
        Err(refusal) => Err(DoctorRefusal::Release(refusal)),
    }
}

/// Input of startup that Execute with the remote signer protects.
#[derive(Clone, Copy, Debug, PartialEq, Eq, Structural)]
pub enum ProtectedFile {
    /// Application configuration.
    Configuration,
    /// Protocol lock.
    ProtocolLock,
    /// Release evidence.
    ReleaseEvidence,
}

/// First protected file whose permissions are refused, in order of inspection.
pub open spec fn protected_failure(
    configuration: FileFacts,
    lock: FileFacts,
    evidence: FileFacts,
) -> Option<(ProtectedFile, PermissionFailure)> {
    if let Some(failure) = permission_failure(configuration) {
        Some((ProtectedFile::Configuration, failure))
    } else if let Some(failure) = permission_failure(lock) {
        Some((ProtectedFile::ProtocolLock, failure))
    } else if let Some(failure) = permission_failure(evidence) {
        Some((ProtectedFile::ReleaseEvidence, failure))
    } else {
        None
    }
}

/// Refuses the first protected file that others may write.
pub fn inspect_protected_files(
    configuration: FileFacts,
    lock: FileFacts,
    evidence: FileFacts,
) -> (r: Result<(), (ProtectedFile, PermissionFailure)>)
    ensures
        match protected_failure(configuration, lock, evidence) {
            Some(failure) => r == Err::<(), (ProtectedFile, PermissionFailure)>(failure),
            None => r is Ok,
        },
{
    if let Err(failure) = enforce_non_writable_by_group_or_world(configuration) {
        return Err((ProtectedFile::Configuration, failure));
    }
    if let Err(failure) = enforce_non_writable_by_group_or_world(lock) {
        return Err((ProtectedFile::ProtocolLock, failure));
    }
    if let Err(failure) = enforce_non_writable_by_group_or_world(evidence) {
        return Err((ProtectedFile::ReleaseEvidence, failure));
    }
    Ok(())
}

/// The signer address of a local development signer: that of the only vault.
pub fn local_signer_address(vaults: &Vec<ValidatedVaultConfig>) -> (r: Option<Address>)
    ensures
        r == if vaults@.len() == 1 {
            Some(vaults@[0].signer_address)
        } else {
            None
        },
{
    if vaults.len() == 1 {
        Some(vaults[0].signer_address)
    } else {
        None
    }
}

/// Vaults of the first `count` by signer.
pub open spec fn vaults_by_signer(vaults: Seq<ValidatedVaultConfig>, count: int) -> Seq<
    (Address, Seq<Address>),
>
    decreases count,
{
    if count <= 0 {
        Seq::empty()
    } else {
        let held = vaults_by_signer(vaults, count - 1);
        let signer = vaults[count - 1].signer_address;
        let managed = match value_of(held, signer) {
            Some(addresses) => addresses,
            None => Seq::empty(),
        };
        with_value(held, signer, with_key(managed, vaults[count - 1].address.0))
    }
}

/// What vaults by signer hold.
pub open spec fn signer_views(entries: Seq<(Address, OrderedSet<Address>)>) -> Seq<
    (Address, Seq<Address>),
> {
    Seq::new(entries.len(), |i: int| (entries[i].0, entries[i].1@))
}

proof fn lemma_signer_bound(
    entries: Seq<(Address, OrderedSet<Address>)>,
    signer: Address,
    from: int,
)
    requires
        0 <= from <= entries.len(),
    ensures
        crate::collections::entry_bound_from(signer_views(entries), signer, from)
            == crate::collections::entry_bound_from(entries, signer, from),
    decreases entries.len() - from,
{
    if from < entries.len() {
        lemma_signer_bound(entries, signer, from + 1);
    }
}

/// Groups the managed vaults by their signer.
pub fn signer_vaults(vaults: &Vec<ValidatedVaultConfig>) -> (r: OrderedMap<
    Address,
    OrderedSet<Address>,
>)
    ensures
        signer_views(r@) == vaults_by_signer(vaults@, vaults@.len() as int),
{
    let mut by_signer: OrderedMap<Address, OrderedSet<Address>> = OrderedMap::new();
    assert(signer_views(by_signer@) =~= Seq::empty());
    let mut i: usize = 0;
    while i < vaults.len()
        invariant
            i <= vaults.len(),
            by_signer.wf(),
            signer_views(by_signer@) == vaults_by_signer(vaults@, i as int),
        decreases vaults.len() - i,
    {
        let signer = vaults[i].signer_address;
        let ghost held = by_signer@;
        proof {
            lemma_signer_bound(held, signer, 0);
            crate::collections::lemma_entry_bound(held, signer, 0);
        }
        let managed = by_signer.get_or_insert(signer, OrderedSet::new());
        let _added = managed.insert(vaults[i].address.0);
        proof {
            let at = crate::collections::entry_bound_from(held, signer, 0);
            assert(signer_views(by_signer@) =~= vaults_by_signer(vaults@, i + 1));
        }
        i = i + 1;
    }
    by_signer
}

/// Heartbeat counters of the supervised workers.
#[derive(Clone, Copy, Debug, PartialEq, Eq, Structural)]
pub struct Heartbeats {
    /// Supervisor counter.
    pub supervisor: u64,
    /// Chain worker counter.
    pub chain: u64,
    /// State worker counter.
    pub state: u64,
}

/// Whether every worker made progress.
pub open spec fn all_progressed(previous: Heartbeats, current: Heartbeats) -> bool {
    current.supervisor > previous.supervisor && current.chain > previous.chain && current.state
        > previous.state
}

/// What one watchdog tick does.
#[derive(Clone, Copy, Debug, PartialEq, Eq, Structural)]
pub enum WatchdogAction {
    /// Nothing is notified.
    Withhold,
    /// The watchdog is notified.
    Notify,
    /// Readiness, then the watchdog, is notified.
    NotifyReady,
}

/// Decides a watchdog tick: only responsive storage and progress of every worker notify.
pub fn watchdog_action(
    storage_responsive: bool,
    previous: Heartbeats,
    current: Heartbeats,
    ready_notified: bool,
) -> (r: WatchdogAction)
    ensures
        r == if !storage_responsive || !all_progressed(previous, current) {
            WatchdogAction::Withhold
        } else if ready_notified {
            WatchdogAction::Notify
        } else {
            WatchdogAction::NotifyReady
        },
{
    let progressed = current.supervisor > previous.supervisor && current.chain > previous.chain
        && current.state > previous.state;
    if !storage_responsive || !progressed {
        WatchdogAction::Withhold
    } else if ready_notified {
        WatchdogAction::Notify
    } else {
        WatchdogAction::NotifyReady
    }
}

/// Whether a mailbox of a capacity alerts at a depth, and whether it stays alerted: it alerts at
/// three quarters and is rearmed below one half.
pub open spec fn mailbox_rule(depth: usize, capacity: usize, alerted: bool) -> (bool, bool) {
    let tripled = if capacity * 3 > usize::MAX {
        usize::MAX as int
    } else {
        capacity * 3
    };
    if depth >= tripled / 4 && !alerted {
        (true, true)
    } else if depth < capacity / 2 {
        (false, false)
    } else {
        (false, alerted)
    }
}

/// Decides whether a mailbox alerts at a depth, with hysteresis.
pub fn mailbox_alert(depth: usize, capacity: usize, alerted: bool) -> (r: (bool, bool))
    ensures
        r == mailbox_rule(depth, capacity, alerted),
{
    let tripled: usize = if capacity > usize::MAX / 3 {
        usize::MAX
    } else {
        capacity * 3
    };
    assert(usize::MAX % 3 == 0);
    if depth >= tripled / 4 && !alerted {
        (true, true)
    } else if depth < capacity / 2 {
        (false, false)
    } else {
        (false, alerted)
    }
}

/// Whether some critical alert is younger than a minute.
pub fn recent_critical_alert(alerts: &Vec<(bool, u64)>, now: u64) -> (r: bool)
    ensures
        r == exists|i: int|
            0 <= i < alerts@.len() && (#[trigger] alerts@[i]).0 && now - alerts@[i].1 < 60,
{
    let mut i: usize = 0;
    while i < alerts.len()
        invariant
            i <= alerts.len(),
            forall|j: int|
                0 <= j < i ==> !((#[trigger] alerts@[j]).0 && now - alerts@[j].1 < 60),
        decreases alerts.len() - i,
    {
        let (critical, created_at) = alerts[i];
        if critical && now.saturating_sub(created_at) < 60 {
            assert(alerts@[i as int].0 && now - alerts@[i as int].1 < 60);
            return true;
        }
        i = i + 1;
    }
    false
}

/// Refuses to start while a deployment input or an environment reference is missing.
pub fn check_inputs(lock_inputs: &Vec<String>, environment: &Vec<String>) -> (r: Result<(), String>)
    ensures
        match r {
            Ok(()) => lock_inputs@.len() == 0 && environment@.len() == 0,
            Err(report) => (lock_inputs@.len() > 0 || environment@.len() > 0) && report@
                == missing_report(lock_inputs@, environment@),
        },
{
    if lock_inputs.len() > 0 || environment.len() > 0 {
        return Err(format_missing_inputs(lock_inputs, environment));
    }
    Ok(())
}

/// How far execute authorization has come.
#[derive(Clone, Copy, Debug, PartialEq, Eq, Structural)]
pub enum AuthorizationState {
    /// Nothing is decided.
    Begin,
    /// The protected files are to be inspected.
    Files,
    /// The release evidence is to be validated.
    Evidence,
    /// The environment is to be read again.
    Environment,
    /// The process guards are to be acquired.
    Guards,
    /// Startup is authorized.
    Authorized {
        /// Release evidence that startup rests on.
        release: ReleaseDecision,
    },
}

/// What execute authorization learned.
#[derive(Debug)]
pub enum AuthorizationEvent {
    /// Authorization begins.
    Started {
        /// Runtime mode.
        mode: RuntimeMode,
        /// Signer.
        signing: SigningConfig,
        /// Whether release evidence is supplied.
        evidence: bool,
    },
    /// The protected files were inspected.
    Inspected {
        /// Application configuration.
        configuration: FileFacts,
        /// Protocol lock.
        lock: FileFacts,
        /// Release evidence.
        evidence: FileFacts,
    },
    /// The release evidence was validated.
    Validated {
        /// Whether the release gate is open.
        ready: bool,
    },
    /// The environment was read.
    EnvironmentRead {
        /// References that are missing.
        missing: Vec<String>,
    },
    /// The process guards were acquired or refused.
    Guarded {
        /// Whether they were acquired.
        acquired: bool,
    },
}

/// Why startup is not authorized.
#[derive(Clone, Copy, Debug, PartialEq, Eq, Structural)]
pub enum AuthorizationRefusal {
    /// The release evidence is refused or missing.
    Release(ReleaseRefusal),
    /// A protected file may be written by others.
    Permissions(ProtectedFile, PermissionFailure),
    /// The release gate is closed.
    GateClosed,
    /// Environment references are missing.
    MissingEnvironment,
    /// The process guards are held elsewhere.
    Unguarded,
    /// The event does not belong to the state.
    OutOfOrder,
}

/// Next state of execute authorization.
pub open spec fn authorization_step(state: AuthorizationState, event: AuthorizationEvent) -> Result<
    AuthorizationState,
    AuthorizationRefusal,
> {
    match (state, event) {
        (
            AuthorizationState::Begin,
            AuthorizationEvent::Started { mode, signing, evidence },
        ) => match release_rule(mode, signing, evidence) {
            Ok(ReleaseDecision::ValidateEvidence) => Ok(AuthorizationState::Files),
            Ok(release) => Ok(AuthorizationState::Authorized { release }),
            Err(refusal) => Err(AuthorizationRefusal::Release(refusal)),
        },
        (
            AuthorizationState::Files,
            AuthorizationEvent::Inspected { configuration, lock, evidence },
        ) => match protected_failure(configuration, lock, evidence) {
            Some((file, failure)) => Err(AuthorizationRefusal::Permissions(file, failure)),
            None => Ok(AuthorizationState::Evidence),
        },
        (AuthorizationState::Evidence, AuthorizationEvent::Validated { ready }) => if ready {
            Ok(AuthorizationState::Environment)
        } else {
            Err(AuthorizationRefusal::GateClosed)
        },
        (
            AuthorizationState::Environment,
            AuthorizationEvent::EnvironmentRead { missing },
        ) => if missing@.len() == 0 {
            Ok(AuthorizationState::Guards)
        } else {
            Err(AuthorizationRefusal::MissingEnvironment)
        },
        (AuthorizationState::Guards, AuthorizationEvent::Guarded { acquired }) => if acquired {
            Ok(AuthorizationState::Authorized { release: ReleaseDecision::ValidateEvidence })
        } else {
            Err(AuthorizationRefusal::Unguarded)
        },
        _ => Err(AuthorizationRefusal::OutOfOrder),
    }
}

/// Advances execute authorization by what was learned.
pub fn authorize_execute_startup(state: AuthorizationState, event: &AuthorizationEvent) -> (r:
    Result<AuthorizationState, AuthorizationRefusal>)
    ensures
        r == authorization_step(state, *event),
{
    match (state, event) {
        (AuthorizationState::Begin, AuthorizationEvent::Started { mode, signing, evidence }) => {
            match decide_release(*mode, signing, *evidence) {
                Ok(ReleaseDecision::ValidateEvidence) => Ok(AuthorizationState::Files),
                Ok(release) => Ok(AuthorizationState::Authorized { release }),
                Err(refusal) => Err(AuthorizationRefusal::Release(refusal)),
            }
        },
        (
            AuthorizationState::Files,
            AuthorizationEvent::Inspected { configuration, lock, evidence },
        ) => {
            match inspect_protected_files(*configuration, *lock, *evidence) {
                Err((file, failure)) => Err(AuthorizationRefusal::Permissions(file, failure)),
                Ok(()) => Ok(AuthorizationState::Evidence),
            }
        },
        (AuthorizationState::Evidence, AuthorizationEvent::Validated { ready }) => {
            if *ready {
                Ok(AuthorizationState::Environment)
            } else {
                Err(AuthorizationRefusal::GateClosed)
            }
        },
        (AuthorizationState::Environment, AuthorizationEvent::EnvironmentRead { missing }) => {
            if missing.len() == 0 {
                Ok(AuthorizationState::Guards)
            } else {
                Err(AuthorizationRefusal::MissingEnvironment)
            }
        },
        (AuthorizationState::Guards, AuthorizationEvent::Guarded { acquired }) => {
            if *acquired {
                Ok(AuthorizationState::Authorized { release: ReleaseDecision::ValidateEvidence })
            } else {
                Err(AuthorizationRefusal::Unguarded)
            }
        },
        _ => Err(AuthorizationRefusal::OutOfOrder),
    }
}

/// Outcome of authorization for a whole sequence of events from index `from` on.
pub open spec fn authorization_run(
    events: Seq<AuthorizationEvent>,
    from: int,
    state: AuthorizationState,
) -> Result<AuthorizationState, AuthorizationRefusal>
    decreases events.len() - from,
{
    if from >= events.len() {
        Ok(state)
    } else {
        match authorization_step(state, events[from]) {
            Ok(next) => authorization_run(events, from + 1, next),
            Err(refusal) => Err(refusal),
        }
    }
}

/// Authorization is fail-closed: startup on release evidence comes only after every protected file
/// was found unwritable by others, the release evidence was ready, no environment reference was
/// missing and the guards were acquired, in that order. Without evidence it comes only outside
/// Execute mode or with a local signer.
pub proof fn authorization_is_fail_closed(events: Seq<AuthorizationEvent>)
    requires
        authorization_run(events, 0, AuthorizationState::Begin) matches Ok(state) && state
            is Authorized,
    ensures
        events.len() == 1 || events.len() == 5,
        events[0] matches AuthorizationEvent::Started { mode, signing, evidence } && if events.len()
            == 1 {
            !evidence && (mode != RuntimeMode::Execute || signing is LocalDevelopment)
        } else {
            evidence && mode == RuntimeMode::Execute && signing is RemoteSigner
        },
        events.len() == 5 ==> {
            &&& events[1] matches AuthorizationEvent::Inspected { configuration, lock, evidence }
                && permission_failure(configuration) is None && permission_failure(lock) is None
                && permission_failure(evidence) is None
            &&& events[2] matches AuthorizationEvent::Validated { ready } && ready
            &&& events[3] matches AuthorizationEvent::EnvironmentRead { missing } && missing@.len()
                == 0
            &&& events[4] matches AuthorizationEvent::Guarded { acquired } && acquired
        },
{
    reveal_with_fuel(authorization_run, 7);
    if events.len() > 0 {
        let first = authorization_step(AuthorizationState::Begin, events[0]);
        if first is Ok && first->Ok_0 is Authorized && events.len() > 1 {
            assert(authorization_step(first->Ok_0, events[1]) is Err);
        }
    }
}

/// How Execute signs.
#[derive(Debug)]
pub enum SignerPlan {
    /// Nothing is signed outside Execute mode.
    Unsigned,
    /// A local development key signs for one vault.
    Local {
        /// Address that the key must have.
        address: Address,
    },
    /// The pinned remote service signs.
    Remote,
}

/// Why Execute cannot sign.
#[derive(Clone, Copy, Debug, PartialEq, Eq, Structural)]
pub enum SignerFailure {
    /// A local development signer needs exactly one vault.
    NotOneVault,
    /// The endpoint reference is missing.
    EndpointMissing,
    /// The endpoint is invalid or not the pinned one.
    Endpoint(SignerEndpointFailure),
    /// The authentication secret is missing.
    SecretMissing,
    /// The authentication secret is empty.
    SecretEmpty,
    /// The fee bound exceeds the signer's range.
    FeeBound,
}

/// Judgement of a remote signer endpoint.
pub open spec fn endpoint_failure(
    endpoint: Option<Seq<char>>,
    service_identity: Seq<char>,
) -> Option<SignerFailure> {
    match endpoint {
        None => Some(SignerFailure::EndpointMissing),
        Some(raw) => match url_parts(raw) {
            None => Some(SignerFailure::Endpoint(SignerEndpointFailure::Invalid)),
            Some(parts) => if plain_https_at(parts, service_identity) {
                None
            } else {
                Some(SignerFailure::Endpoint(SignerEndpointFailure::NotPinned))
            },
        },
    }
}

/// Plans how a configuration signs, given the endpoint that the environment names.
pub fn plan_signer(
    app: &ValidatedAppConfig,
    remote: &RemoteSignerIdentity,
    endpoint: Option<&str>,
) -> (r: Result<SignerPlan, SignerFailure>)
    ensures
        if app.node.mode != RuntimeMode::Execute {
            r == Ok::<SignerPlan, SignerFailure>(SignerPlan::Unsigned)
        } else {
            match app.signing {
                SigningConfig::LocalDevelopment { .. } => r == if app.vaults@.len() == 1 {
                    Ok(SignerPlan::Local { address: app.vaults@[0].signer_address })
                } else {
                    Err(SignerFailure::NotOneVault)
                },
                SigningConfig::RemoteSigner { .. } => match endpoint_failure(
                    match endpoint {
                        Some(raw) => Some(raw@),
                        None => None,
                    },
                    remote.service_identity@,
                ) {
                    Some(failure) => r == Err::<SignerPlan, SignerFailure>(failure),
                    None => r == Ok::<SignerPlan, SignerFailure>(SignerPlan::Remote),
                },
            }
        },
{
    if app.node.mode != RuntimeMode::Execute {
        return Ok(SignerPlan::Unsigned);
    }
    match &app.signing {
        SigningConfig::LocalDevelopment { .. } => match local_signer_address(&app.vaults) {
            Some(address) => Ok(SignerPlan::Local { address }),
            None => Err(SignerFailure::NotOneVault),
        },
        SigningConfig::RemoteSigner { .. } => match endpoint {
            None => Err(SignerFailure::EndpointMissing),
            Some(raw) => match check_signer_endpoint(raw, &remote.service_identity) {
                Ok(()) => Ok(SignerPlan::Remote),
                Err(failure) => Err(SignerFailure::Endpoint(failure)),
            },
        },
    }
}

/// What the remote signer may sign.
pub struct RemoteSignerPolicy {
    /// EVM chain ID.
    pub chain_id: u64,
    /// Vaults of each signer.
    pub signer_vaults: OrderedMap<Address, OrderedSet<Address>>,
    /// Largest gas limit.
    pub maximum_gas_limit: u64,
    /// Largest fee per gas in wei.
    pub maximum_fee_per_gas: u128,
}

/// First reason why the remote signer cannot be used with a secret, if any.
pub open spec fn secret_failure(app: ValidatedAppConfig, secret: Option<Seq<char>>) -> Option<
    SignerFailure,
> {
    match secret {
        None => Some(SignerFailure::SecretMissing),
        Some(text) => if text.len() == 0 {
            Some(SignerFailure::SecretEmpty)
        } else if app.execution.maximum_fee_per_gas_wei@ > u128::MAX {
            Some(SignerFailure::FeeBound)
        } else {
            None
        },
    }
}

/// Bounds what the remote signer may sign, given the authentication secret that the environment
/// holds.
pub fn remote_signer_policy(app: &ValidatedAppConfig, secret: Option<&str>) -> (r: Result<
    RemoteSignerPolicy,
    SignerFailure,
>)
    ensures
        match secret_failure(
            *app,
            match secret {
                Some(text) => Some(text@),
                None => None,
            },
        ) {
            Some(failure) => r is Err && r->Err_0 == failure,
            None => {
                &&& r is Ok
                &&& r->Ok_0.chain_id == app.chain.chain_id
                &&& signer_views(r->Ok_0.signer_vaults@) == vaults_by_signer(
                    app.vaults@,
                    app.vaults@.len() as int,
                )
                &&& r->Ok_0.maximum_gas_limit == app.execution.maximum_signed_transaction_gas
                &&& r->Ok_0.maximum_fee_per_gas == app.execution.maximum_fee_per_gas_wei@
            },
        },
{
    match secret {
        None => Err(SignerFailure::SecretMissing),
        Some(text) => {
            if text.unicode_len() == 0 {
                return Err(SignerFailure::SecretEmpty);
            }
            match app.execution.maximum_fee_per_gas_wei.to_u128() {
                None => Err(SignerFailure::FeeBound),
                Some(maximum_fee_per_gas) => Ok(
                    RemoteSignerPolicy {
                        chain_id: app.chain.chain_id,
                        signer_vaults: signer_vaults(&app.vaults),
                        maximum_gas_limit: app.execution.maximum_signed_transaction_gas,
                        maximum_fee_per_gas,
                    },
                ),
            }
        },
    }
}

/// Length of a span in nanoseconds.
pub open spec fn nanoseconds(span: Duration) -> int {
    span.secs * 1_000_000_000 + span.nanos
}

/// Interval between watchdog ticks: a third of the window, at least one second.
pub fn watchdog_interval(window: Duration) -> (r: Duration)
    requires
        window.nanos < 1_000_000_000,
    ensures
        r.nanos < 1_000_000_000,
        nanoseconds(r) == if nanoseconds(window) / 3 < 1_000_000_000 {
            1_000_000_000
        } else {
            nanoseconds(window) / 3
        },
{
    let total: u128 = window.secs as u128 * 1_000_000_000 + window.nanos as u128;
    let third: u128 = total / 3;
    if third < 1_000_000_000 {
        return Duration::from_secs(1);
    }
    let secs: u64 = (third / 1_000_000_000) as u64;
    let nanos: u32 = (third % 1_000_000_000) as u32;
    Duration { secs, nanos }
}

/// A file is refused exactly where it is a symbolic link or where its group or the world may write it.
pub proof fn refused_files_are_links_or_writable(file: FileFacts)
    ensures
        permission_failure(file) is Some <==> file.is_symlink || file.mode & 0o020 != 0 || file.mode
            & 0o002 != 0,
        permission_failure(file) == Some(PermissionFailure::SymbolicLink) <==> file.is_symlink,
{
    masked_bits_are_group_and_world_write(file.mode);
}

/// Release evidence is validated exactly for executing with the remote signer, is refused everywhere
/// else, and is owed there.
pub proof fn evidence_goes_with_the_remote_signer(
    mode: RuntimeMode,
    signing: SigningConfig,
    evidence: bool,
)
    ensures
        ({
            let rule = release_rule(mode, signing, evidence);
            let remote = mode == RuntimeMode::Execute && signing is RemoteSigner;
            &&& rule is Ok <==> evidence == remote
            &&& rule == Ok::<ReleaseDecision, ReleaseRefusal>(ReleaseDecision::ValidateEvidence)
                <==> evidence && remote
            &&& rule == Ok::<ReleaseDecision, ReleaseRefusal>(ReleaseDecision::NotApplicable)
                <==> !evidence && mode != RuntimeMode::Execute
            &&& rule == Err::<ReleaseDecision, ReleaseRefusal>(ReleaseRefusal::MissingEvidence)
                <==> !evidence && remote
            &&& rule == Err::<ReleaseDecision, ReleaseRefusal>(ReleaseRefusal::OnlyInExecute)
                <==> evidence && mode != RuntimeMode::Execute
        }),
{
}

/// Startup is authorized in one step exactly without evidence where none is owed; each later step
/// needs its own event to have gone well.
pub proof fn authorization_takes_each_step_once(
    state: AuthorizationState,
    event: AuthorizationEvent,
)
    ensures
        ({
            let next = authorization_step(state, event);
            &&& state is Authorized ==> next is Err
            &&& next is Ok && state is Begin ==> event is Started && (next->Ok_0 is Files
                || next->Ok_0 is Authorized)
            &&& next is Ok && state is Files ==> event is Inspected && next->Ok_0 is Evidence
            &&& next is Ok && state is Evidence ==> event is Validated && next->Ok_0 is Environment
            &&& next is Ok && state is Environment ==> event is EnvironmentRead && next->Ok_0
                is Guards
            &&& next is Ok && state is Guards ==> event is Guarded && next->Ok_0 is Authorized
        }),
{
}

/// A mailbox alerts once at three quarters of its capacity and may alert again only after it was less
/// than half full.
pub proof fn mailbox_alerts_at_three_quarters(depth: usize, capacity: usize, alerted: bool)
    requires
        capacity * 3 <= usize::MAX,
    ensures
        ({
            let (alerts, stays) = mailbox_rule(depth, capacity, alerted);
            &&& alerts <==> !alerted && 4 * (depth + 1) > 3 * capacity
            &&& stays <==> alerts || alerted && 2 * (depth + 1) > capacity
        }),
{
}

/// Whether a vault of the first `count` has the signer and address.
pub open spec fn manages(
    vaults: Seq<ValidatedVaultConfig>,
    count: int,
    signer: Address,
    address: Address,
) -> bool {
    exists|i: int|
        0 <= i < count && (#[trigger] vaults[i]).signer_address == signer && vaults[i].address.0
            == address
}

/// A signer is given exactly the vaults that name it.
pub proof fn signers_manage_their_own_vaults(
    vaults: Seq<ValidatedVaultConfig>,
    count: int,
    signer: Address,
    address: Address,
)
    requires
        0 <= count <= vaults.len(),
    ensures
        ordered_entries(vaults_by_signer(vaults, count)),
        ({
            let managed = value_of(vaults_by_signer(vaults, count), signer);
            &&& manages(vaults, count, signer, address) <==> managed is Some && managed->0.contains(
                address,
            )
            &&& managed is Some ==> strictly_increasing(managed->0)
        }),
    decreases count,
{
    if count > 0 {
        let vault = vaults[count - 1];
        signers_manage_their_own_vaults(vaults, count - 1, signer, address);
        signers_manage_their_own_vaults(vaults, count - 1, vault.signer_address, address);
        let held = vaults_by_signer(vaults, count - 1);
        let managed = match value_of(held, vault.signer_address) {
            Some(addresses) => addresses,
            None => Seq::empty(),
        };
        let added = with_key(managed, vault.address.0);
        with_key_is_insertion(managed, vault.address.0);
        value_of_with_value(held, vault.signer_address, added, signer);
        assert(added.contains(address) == (managed.contains(address) || address
            == vault.address.0)) by {
            assert(added.to_set().contains(address) == managed.to_set().insert(
                vault.address.0,
            ).contains(address));
        }
        if manages(vaults, count - 1, signer, address) {
            let i = choose|i: int|
                0 <= i < count - 1 && (#[trigger] vaults[i]).signer_address == signer
                    && vaults[i].address.0 == address;
            assert(vaults[i].signer_address == signer);
        }
        if vault.signer_address == signer && vault.address.0 == address {
            assert(vaults[count - 1].signer_address == signer);
        }
    }
}

} // verus!
