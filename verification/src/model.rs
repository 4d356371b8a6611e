//! The names of models, made to fit the provider that runs them.

use vstd::prelude::*;

use crate::auth::AuthProvider;
use crate::names::Names;
use crate::text::{
    chars_of, contains, is_digit, lower, lower_char, lowered, occurs, occurs_at, same, starts,
    starts_with, trim, trim_back, trim_front, trimmed,
};

verus! {

/// The model of an agent type for which none is set.
pub open spec fn default_model(
    provider: AuthProvider,
    agent_type: Seq<char>,
    names: Names,
) -> Seq<char> {
    match provider {
        AuthProvider::Codex => "gpt-5.4"@,
        _ => if agent_type == "midtown-project-lead"@ || agent_type == names.reader_agent@ {
            "opus"@
        } else {
            "sonnet"@
        },
    }
}

pub fn default_model_for_provider_role(
    provider: AuthProvider,
    agent_type: &str,
    names: &Names,
) -> (r: &'static str)
    ensures
        r@ == default_model(provider, agent_type@, *names),
{
    match provider {
        AuthProvider::Codex => "gpt-5.4",
        _ => if same(agent_type, "midtown-project-lead") || same(
            agent_type,
            names.reader_agent.as_str(),
        ) {
            "opus"
        } else {
            "sonnet"
        },
    }
}

/// The model that a size stands for.
pub open spec fn model_of_size(size: Seq<char>, provider: AuthProvider) -> Option<Seq<char>> {
    let codex = provider is Codex;
    if size == "small"@ {
        Some(
            if codex {
                "gpt-5.1-codex-mini"@
            } else {
                "haiku"@
            },
        )
    } else if size == "medium"@ {
        Some(
            if codex {
                "gpt-5.3-codex-spark"@
            } else {
                "sonnet"@
            },
        )
    } else if size == "large"@ {
        Some(
            if codex {
                "gpt-5.4"@
            } else {
                "opus"@
            },
        )
    } else {
        None
    }
}

pub fn normalize_size_alias_for_provider(lower_model: &str, provider: AuthProvider) -> (r: Option<
    String,
>)
    ensures
        crate::text::opt(r) == model_of_size(lower_model@, provider),
{
    let codex = provider.is_codex();
    if same(lower_model, "small") {
        Some(
            (if codex {
                "gpt-5.1-codex-mini"
            } else {
                "haiku"
            }).to_owned(),
        )
    } else if same(lower_model, "medium") {
        Some(
            (if codex {
                "gpt-5.3-codex-spark"
            } else {
                "sonnet"
            }).to_owned(),
        )
    } else if same(lower_model, "large") {
        Some(
            (if codex {
                "gpt-5.4"
            } else {
                "opus"
            }).to_owned(),
        )
    } else {
        None
    }
}

/// A name, in lower case, that the models of Anthropic bear.
pub open spec fn is_claude_name(lower_model: Seq<char>) -> bool {
    occurs(lower_model, "sonnet"@) || occurs(lower_model, "opus"@) || occurs(lower_model, "haiku"@)
}

/// A name, in lower case, that OpenAI's models bear.
pub open spec fn is_openai_name(lower_model: Seq<char>) -> bool {
    occurs(lower_model, "codex"@) || starts(lower_model, "gpt-"@) || (lower_model.len() >= 2
        && lower_model[0] == 'o' && is_digit(lower_model[1]))
}

fn has_claude_name(lower_model: &str) -> (r: bool)
    ensures
        r == is_claude_name(lower_model@),
{
    contains(lower_model, "sonnet") || contains(lower_model, "opus") || contains(
        lower_model,
        "haiku",
    )
}

pub fn is_openai_model_alias(lower_model: &str) -> (r: bool)
    ensures
        r == is_openai_name(lower_model@),
{
    let v = chars_of(lower_model);
    contains(lower_model, "codex") || starts_with(lower_model, "gpt-") || (v.len() >= 2 && v[0]
        == 'o' && '0' <= v[1] && v[1] <= '9')
}

/// The model that a name comes to for a provider: that of the size it names, the default
/// where it is blank or another provider's, else the name itself without the white space
/// around it.
pub open spec fn normalized(
    model: Seq<char>,
    provider: AuthProvider,
    agent_type: Seq<char>,
    names: Names,
) -> Seq<char> {
    let name = trim(model);
    let low = lower(name);
    let foreign = if provider is Codex {
        is_claude_name(low)
    } else {
        is_openai_name(low)
    };
    if name.len() == 0 {
        default_model(provider, agent_type, names)
    } else if model_of_size(low, provider) is Some {
        model_of_size(low, provider)->0
    } else if foreign {
        default_model(provider, agent_type, names)
    } else {
        name
    }
}

pub fn normalize_model_for_provider_role(
    model: &str,
    provider: AuthProvider,
    agent_type: &str,
    names: &Names,
) -> (r: String)
    ensures
        r@ == normalized(model@, provider, agent_type@, *names),
{
    let name = trimmed(model);
    let default_model = default_model_for_provider_role(provider, agent_type, names);
    if name.as_str().is_empty() {
        return default_model.to_owned();
    }
    let low = lowered(name.as_str());
    if let Some(sized) = normalize_size_alias_for_provider(low.as_str(), provider) {
        return sized;
    }
    let foreign = if provider.is_codex() {
        has_claude_name(low.as_str())
    } else {
        is_openai_model_alias(low.as_str())
    };
    if foreign {
        default_model.to_owned()
    } else {
        name
    }
}

/// The provider whose models bear a name. A size, or a name that neither bears, has none.
pub open spec fn provider_of(model: Seq<char>) -> Option<AuthProvider> {
    let low = lower(trim(model));
    if low.len() == 0 || low == "small"@ || low == "medium"@ || low == "large"@ {
        None
    } else if is_claude_name(low) {
        Some(AuthProvider::Claude)
    } else if is_openai_name(low) {
        Some(AuthProvider::Codex)
    } else {
        None
    }
}

pub fn provider_for_model_alias(model: &str) -> (r: Option<AuthProvider>)
    ensures
        r == provider_of(model@),
{
    let low = lowered(trimmed(model).as_str());
    let low = low.as_str();
    if low.is_empty() || same(low, "small") || same(low, "medium") || same(low, "large") {
        return None;
    }
    if has_claude_name(low) {
        return Some(AuthProvider::Claude);
    }
    if is_openai_model_alias(low) {
        return Some(AuthProvider::Codex);
    }
    None
}

/// The model for a session: the configured one, made to fit, or else the default.
pub fn resolve_model_for_role(
    configured: &Option<String>,
    provider: AuthProvider,
    agent_type: &str,
    names: &Names,
) -> (r: String)
    ensures
        r@ == (match crate::text::opt(*configured) {
            Some(model) => normalized(model, provider, agent_type@, *names),
            None => default_model(provider, agent_type@, *names),
        }),
{
    match configured {
        Some(model) => normalize_model_for_provider_role(
            model.as_str(),
            provider,
            agent_type,
            names,
        ),
        None => default_model_for_provider_role(provider, agent_type, names).to_owned(),
    }
}

proof fn lemma_absent(s: Seq<char>, pat: Seq<char>, k: int)
    requires
        0 <= k < pat.len(),
        forall|i: int| 0 <= i < s.len() ==> s[i] != pat[k],
    ensures
        !occurs(s, pat),
{
    assert forall|i: int| !occurs_at(s, pat, i) by {
        if occurs_at(s, pat, i) {
            assert(s.subrange(i, i + pat.len())[k] == s[i + k]);
        }
    }
}

proof fn lemma_trim_front_shape(s: Seq<char>)
    ensures
        trim_front(s).len() > 0 ==> !crate::text::is_space(trim_front(s)[0]),
        trim_front(s).len() <= s.len(),
    decreases s.len(),
{
    if s.len() > 0 && crate::text::is_space(s[0]) {
        lemma_trim_front_shape(s.skip(1));
    }
}

proof fn lemma_trim_back_shape(s: Seq<char>)
    ensures
        trim_back(s).len() > 0 ==> !crate::text::is_space(trim_back(s).last()) && s.len() > 0
            && trim_back(s)[0] == s[0],
    decreases s.len(),
{
    if s.len() > 0 && crate::text::is_space(s.last()) {
        lemma_trim_back_shape(s.drop_last());
    }
}

proof fn lemma_trim_twice(s: Seq<char>)
    ensures
        trim(trim(s)) == trim(s),
{
    lemma_trim_front_shape(s);
    lemma_trim_back_shape(trim_front(s));
}

proof fn lemma_claude_models()
    ensures
        forall|m: Seq<char>|
            m == "opus"@ || m == "sonnet"@ || m == "haiku"@ ==> #[trigger] lower(m) == m && trim(m)
                == m && m.len() > 0 && !is_openai_name(m) && m != "small"@ && m != "medium"@ && m
                != "large"@,
{
    reveal_strlit("opus");
    reveal_strlit("sonnet");
    reveal_strlit("haiku");
    reveal_strlit("codex");
    reveal_strlit("gpt-");
    reveal_strlit("small");
    reveal_strlit("medium");
    reveal_strlit("large");
    assert forall|m: Seq<char>|
        m == "opus"@ || m == "sonnet"@ || m == "haiku"@ implies #[trigger] lower(m) == m && trim(m)
        == m && m.len() > 0 && !is_openai_name(m) && m != "small"@ && m != "medium"@ && m
        != "large"@ by {
        lemma_absent(m, "codex"@, 4);
        assert(lower(m) =~= m);
        assert(m[0] != "small"@[0] || m[1] != "small"@[1]);
        assert(m[0] != "medium"@[0]);
        assert(m[0] != "large"@[0]);
        if starts(m, "gpt-"@) {
            assert(m.subrange(0, 4)[0] == m[0]);
        }
    }
}

proof fn lemma_codex_models()
    ensures
        forall|m: Seq<char>|
            m == "gpt-5.4"@ || m == "gpt-5.1-codex-mini"@ || m == "gpt-5.3-codex-spark"@
                ==> #[trigger] lower(m) == m && trim(m) == m && m.len() > 0 && !is_claude_name(m)
                && m != "small"@ && m != "medium"@ && m != "large"@,
{
    reveal_strlit("opus");
    reveal_strlit("sonnet");
    reveal_strlit("haiku");
    reveal_strlit("gpt-5.4");
    reveal_strlit("gpt-5.1-codex-mini");
    reveal_strlit("gpt-5.3-codex-spark");
    reveal_strlit("small");
    reveal_strlit("medium");
    reveal_strlit("large");
    assert forall|m: Seq<char>|
        m == "gpt-5.4"@ || m == "gpt-5.1-codex-mini"@ || m == "gpt-5.3-codex-spark"@ implies #[trigger] lower(
        m,
    ) == m && trim(m) == m && m.len() > 0 && !is_claude_name(m) && m != "small"@ && m
        != "medium"@ && m != "large"@ by {
        lemma_absent(m, "opus"@, 2);
        lemma_absent(m, "haiku"@, 0);
        if m == "gpt-5.1-codex-mini"@ {
            lemma_absent(m, "sonnet"@, 0);
        } else {
            lemma_absent(m, "sonnet"@, 2);
        }
        assert(lower(m) =~= m);
        assert(m[0] != "small"@[0]);
        assert(m[0] != "medium"@[0]);
        assert(m[0] != "large"@[0]);
    }
}

/// A normalized model is one that the provider can run: Codex gets no name of Anthropic's, and
/// the others none of OpenAI's.
pub proof fn normalized_model_fits_the_provider(
    model: Seq<char>,
    provider: AuthProvider,
    agent_type: Seq<char>,
    names: Names,
)
    ensures
        provider is Codex ==> !is_claude_name(lower(normalized(model, provider, agent_type, names))),
        !(provider is Codex) ==> !is_openai_name(lower(normalized(model, provider, agent_type, names))),
{
    lemma_claude_models();
    lemma_codex_models();
    let r = normalized(model, provider, agent_type, names);
    assert(lower(r) == lower(r));
}

/// To normalize a model again changes nothing.
pub proof fn normalizing_again_changes_nothing(
    model: Seq<char>,
    provider: AuthProvider,
    agent_type: Seq<char>,
    names: Names,
)
    ensures
        normalized(normalized(model, provider, agent_type, names), provider, agent_type, names)
            == normalized(model, provider, agent_type, names),
{
    lemma_claude_models();
    lemma_codex_models();
    lemma_trim_twice(model);
    let r = normalized(model, provider, agent_type, names);
    assert(lower(r) == lower(r));
}

/// Where no model is set, Codex runs one model, and Anthropic's program the larger one for the
/// project's lead and for who reads pull requests, and the smaller one for everyone else.
pub proof fn models_default_by_role(agent_type: Seq<char>, names: Names)
    ensures
        default_model(AuthProvider::Codex, agent_type, names) == "gpt-5.4"@,
        agent_type == "midtown-project-lead"@ || agent_type == names.reader_agent@ ==> default_model(
            AuthProvider::Claude,
            agent_type,
            names,
        ) == "opus"@ && default_model(AuthProvider::Zai, agent_type, names) == "opus"@,
        agent_type != "midtown-project-lead"@ && agent_type != names.reader_agent@ ==> default_model(
            AuthProvider::Claude,
            agent_type,
            names,
        ) == "sonnet"@ && default_model(AuthProvider::Zai, agent_type, names) == "sonnet"@,
{
}

/// Each of the three sizes stands for a model of the provider, and nothing else is a size.
pub proof fn sizes_stand_for_models(size: Seq<char>, provider: AuthProvider)
    ensures
        model_of_size("small"@, AuthProvider::Codex) == Some("gpt-5.1-codex-mini"@),
        model_of_size("medium"@, AuthProvider::Codex) == Some("gpt-5.3-codex-spark"@),
        model_of_size("large"@, AuthProvider::Codex) == Some("gpt-5.4"@),
        !(provider is Codex) ==> model_of_size("small"@, provider) == Some("haiku"@),
        !(provider is Codex) ==> model_of_size("medium"@, provider) == Some("sonnet"@),
        !(provider is Codex) ==> model_of_size("large"@, provider) == Some("opus"@),
        model_of_size(size, provider) is Some <==> size == "small"@ || size == "medium"@ || size
            == "large"@,
{
    reveal_strlit("small");
    reveal_strlit("medium");
    reveal_strlit("large");
    assert("small"@.len() == 5);
    assert("medium"@.len() == 6);
    assert("large"@.len() == 5);
    assert("large"@[0] == 'l');
    assert("small"@[0] == 's');
}

/// A name is Anthropic's where one of its families occurs in it, and OpenAI's where it speaks
/// of Codex, begins as theirs do, or is an `o` with a number.
pub proof fn families_tell_whose_a_model_is(low: Seq<char>)
    ensures
        is_claude_name(low) <==> occurs(low, "sonnet"@) || occurs(low, "opus"@) || occurs(
            low,
            "haiku"@,
        ),
        is_openai_name(low) <==> {
            ||| occurs(low, "codex"@)
            ||| starts(low, "gpt-"@)
            ||| low.len() >= 2 && low[0] == 'o' && '0' <= low[1] <= '9'
        },
{
}

/// A size is made the model that it stands for, whatever its case and the white space around
/// it. A blank name, and one of the other provider's models, becomes the default. Every other
/// name stays what it is, without the white space around it.
pub proof fn models_are_made_to_fit(
    model: Seq<char>,
    provider: AuthProvider,
    agent_type: Seq<char>,
    names: Names,
)
    ensures
        ({
            let low = lower(trim(model));
            let r = normalized(model, provider, agent_type, names);
            let is_size = low == "small"@ || low == "medium"@ || low == "large"@;
            let of_anthropic = occurs(low, "sonnet"@) || occurs(low, "opus"@) || occurs(
                low,
                "haiku"@,
            );
            let of_openai = occurs(low, "codex"@) || starts(low, "gpt-"@) || (low.len() >= 2
                && low[0] == 'o' && '0' <= low[1] <= '9');
            &&& low == "small"@ ==> r == (if provider is Codex {
                "gpt-5.1-codex-mini"@
            } else {
                "haiku"@
            })
            &&& low == "medium"@ ==> r == (if provider is Codex {
                "gpt-5.3-codex-spark"@
            } else {
                "sonnet"@
            })
            &&& low == "large"@ ==> r == (if provider is Codex {
                "gpt-5.4"@
            } else {
                "opus"@
            })
            &&& trim(model).len() == 0 ==> r == default_model(provider, agent_type, names)
            &&& (!is_size && provider is Codex && of_anthropic) ==> r == default_model(
                provider,
                agent_type,
                names,
            )
            &&& (!is_size && !(provider is Codex) && of_openai) ==> r == default_model(
                provider,
                agent_type,
                names,
            )
            &&& (!is_size && trim(model).len() > 0 && provider is Codex && !of_anthropic) ==> r == trim(
                model,
            )
            &&& (!is_size && trim(model).len() > 0 && !(provider is Codex) && !of_openai) ==> r == trim(
                model,
            )
        }),
{
    reveal_strlit("small");
    reveal_strlit("medium");
    reveal_strlit("large");
    assert("small"@.len() == 5);
    assert("medium"@.len() == 6);
    assert("large"@.len() == 5);
    assert("large"@[0] == 'l');
    assert("small"@[0] == 's');
}

/// A model tells its provider by its name alone, whatever its case and the white space around
/// it: a size, a blank name and one of neither's models tell none.
pub proof fn models_tell_their_provider(model: Seq<char>)
    ensures
        ({
            let low = lower(trim(model));
            let is_size = low == "small"@ || low == "medium"@ || low == "large"@;
            let of_anthropic = occurs(low, "sonnet"@) || occurs(low, "opus"@) || occurs(
                low,
                "haiku"@,
            );
            let of_openai = occurs(low, "codex"@) || starts(low, "gpt-"@) || (low.len() >= 2
                && low[0] == 'o' && '0' <= low[1] <= '9');
            &&& (is_size || low.len() == 0) ==> provider_of(model) is None
            &&& (!is_size && low.len() > 0 && of_anthropic) ==> provider_of(model) == Some(
                AuthProvider::Claude,
            )
            &&& (!is_size && low.len() > 0 && !of_anthropic && of_openai) ==> provider_of(model)
                == Some(AuthProvider::Codex)
            &&& (!of_anthropic && !of_openai) ==> provider_of(model) is None
        }),
{
}

} // verus!
