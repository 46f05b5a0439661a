//! Built-in prompt templates and the conversion of prompts, server
//! commands and agents into selection-menu entries.

use vstd::prelude::*;
use vstd::string::StringExecFns;
use crate::select::{SelectItem, ItemView, items_view};
use crate::server::{Agent, Command};
use crate::strutil::str_eq;

verus! {

/// A predefined prompt template.
#[derive(Debug, Clone, Copy)]
pub struct Prompt {
    pub name: &'static str,
    pub prompt: &'static str,
    pub description: &'static str,
}

/// The mathematical image of a [`Prompt`].
#[verifier::ext_equal]
pub struct PromptView {
    pub name: Seq<char>,
    pub prompt: Seq<char>,
    pub description: Seq<char>,
}

impl View for Prompt {
    type V = PromptView;

    open spec fn view(&self) -> PromptView {
        PromptView { name: self.name@, prompt: self.prompt@, description: self.description@ }
    }
}

/// The views of a list of prompts.
pub open spec fn prompt_views(ps: Seq<Prompt>) -> Seq<PromptView> {
    ps.map_values(|p: Prompt| p@)
}

/// The built-in prompt table.
pub open spec fn default_prompts_view() -> Seq<PromptView> {
    seq![
        PromptView {
            name: "explain"@,
            prompt: "Explain how this code works: @this"@,
            description: "Explain the selected code"@,
        },
        PromptView {
            name: "review"@,
            prompt: "Review this code and suggest improvements: @this"@,
            description: "Code review"@,
        },
        PromptView {
            name: "fix"@,
            prompt: "Fix the issue in this code: @this"@,
            description: "Fix code issues"@,
        },
        PromptView {
            name: "implement"@,
            prompt: "Implement based on the context: @this"@,
            description: "Implement code"@,
        },
        PromptView {
            name: "tests"@,
            prompt: "Write tests for this code: @this"@,
            description: "Generate tests"@,
        },
        PromptView {
            name: "docs"@,
            prompt: "Add documentation to this code: @this"@,
            description: "Add documentation"@,
        },
        PromptView {
            name: "refactor"@,
            prompt: "Refactor this code to be cleaner and more maintainable: @this"@,
            description: "Refactor code"@,
        },
        PromptView {
            name: "optimize"@,
            prompt: "Optimize this code for better performance: @this"@,
            description: "Optimize performance"@,
        },
    ]
}

/// The built-in prompt templates, in their menu order.
pub fn default_prompts() -> (r: Vec<Prompt>)
    ensures
        prompt_views(r@) == default_prompts_view(),
{
    let mut r: Vec<Prompt> = Vec::new();
    r.push(
        Prompt {
            name: "explain",
            prompt: "Explain how this code works: @this",
            description: "Explain the selected code",
        },
    );
    r.push(
        Prompt {
            name: "review",
            prompt: "Review this code and suggest improvements: @this",
            description: "Code review",
        },
    );
    r.push(
        Prompt {
            name: "fix",
            prompt: "Fix the issue in this code: @this",
            description: "Fix code issues",
        },
    );
    r.push(
        Prompt {
            name: "implement",
            prompt: "Implement based on the context: @this",
            description: "Implement code",
        },
    );
    r.push(
        Prompt {
            name: "tests",
            prompt: "Write tests for this code: @this",
            description: "Generate tests",
        },
    );
    r.push(
        Prompt {
            name: "docs",
            prompt: "Add documentation to this code: @this",
            description: "Add documentation",
        },
    );
    r.push(
        Prompt {
            name: "refactor",
            prompt: "Refactor this code to be cleaner and more maintainable: @this",
            description: "Refactor code",
        },
    );
    r.push(
        Prompt {
            name: "optimize",
            prompt: "Optimize this code for better performance: @this",
            description: "Optimize performance",
        },
    );
    proof {
        assert(prompt_views(r@) =~~= default_prompts_view());
    }
    r
}

/// The first prompt of the table with the given name.
pub open spec fn find_prompt(name: Seq<char>, ps: Seq<PromptView>) -> Option<PromptView>
    decreases ps.len(),
{
    if ps.len() == 0 {
        None
    } else if ps[0].name == name {
        Some(ps[0])
    } else {
        find_prompt(name, ps.drop_first())
    }
}

/// Look up a built-in prompt by name.
pub fn get_prompt(name: &str) -> (r: Option<Prompt>)
    ensures
        match r {
            Some(p) => find_prompt(name@, default_prompts_view()) == Some(p@),
            None => find_prompt(name@, default_prompts_view()) is None,
        },
{
    let ps = default_prompts();
    let n = ps.len();
    let mut i: usize = 0;
    proof {
        assert(prompt_views(ps@).skip(0) =~= prompt_views(ps@));
    }
    while i < n
        invariant
            i <= n,
            n == ps@.len(),
            prompt_views(ps@) == default_prompts_view(),
            find_prompt(name@, default_prompts_view()) == find_prompt(
                name@,
                prompt_views(ps@).skip(i as int),
            ),
        decreases n - i,
    {
        proof {
            assert(prompt_views(ps@).skip(i as int)[0] == ps@[i as int]@);
            assert(prompt_views(ps@).skip(i as int).drop_first() =~= prompt_views(ps@).skip(i + 1));
        }
        if str_eq(ps[i].name, name) {
            let p = ps[i];
            return Some(p);
        }
        i += 1;
    }
    proof {
        assert(prompt_views(ps@).skip(n as int) =~= Seq::<PromptView>::empty());
    }
    None
}

/// The menu entries for the built-in prompts.
pub open spec fn prompt_items_view() -> Seq<ItemView> {
    default_prompts_view().map_values(
        |p: PromptView|
            ItemView {
                name: p.name,
                description: p.description,
                value: p.prompt,
                category: "PROMPTS"@,
            },
    )
}

/// The built-in prompts as menu entries: the prompt text is the value the
/// menu returns.
pub fn prompts_to_select_items() -> (r: Vec<SelectItem>)
    ensures
        items_view(r@) == prompt_items_view(),
{
    let ps = default_prompts();
    let mut r: Vec<SelectItem> = Vec::new();
    let mut i: usize = 0;
    while i < ps.len()
        invariant
            i <= ps@.len(),
            prompt_views(ps@) == default_prompts_view(),
            items_view(r@) == prompt_items_view().take(i as int),
        decreases ps@.len() - i,
    {
        let it = SelectItem::new(ps[i].name, ps[i].description, ps[i].prompt, "PROMPTS");
        proof {
            assert(prompt_items_view()[i as int] =~~= ItemView {
                name: ps@[i as int]@.name,
                description: ps@[i as int]@.description,
                value: ps@[i as int]@.prompt,
                category: "PROMPTS"@,
            });
            assert(it@ =~~= prompt_items_view()[i as int]);
        }
        r.push(it);
        proof {
            assert(items_view(r@) =~~= items_view(r@.drop_last()) + seq![it@]);
            assert(prompt_items_view().take(i + 1) =~~= prompt_items_view().take(i as int) + seq![
                prompt_items_view()[i as int],
            ]);
            assert(items_view(r@) =~~= prompt_items_view().take(i + 1));
        }
        i += 1;
    }
    proof {
        assert(prompt_items_view().take(default_prompts_view().len() as int) =~= prompt_items_view(
        ));
    }
    r
}

/// The menu entry for one server command: a slash-prefixed name, and the
/// command's template as the value.
pub open spec fn command_item_view(c: crate::server::CommandView) -> ItemView {
    ItemView {
        name: seq!['/'] + c.name,
        description: c.description,
        value: c.template,
        category: "COMMANDS"@,
    }
}

/// Server commands as menu entries.
pub fn commands_to_select_items(commands: &[Command]) -> (r: Vec<SelectItem>)
    ensures
        r@.len() == commands@.len(),
        forall|i: int|
            0 <= i < r@.len() ==> #[trigger] r@[i]@ == command_item_view(commands@[i]@),
{
    proof {
        reveal_strlit("/");
    }
    let mut r: Vec<SelectItem> = Vec::new();
    let mut i: usize = 0;
    while i < commands.len()
        invariant
            i <= commands@.len(),
            r@.len() == i,
            forall|j: int| 0 <= j < i ==> #[trigger] r@[j]@ == command_item_view(commands@[j]@),
        decreases commands@.len() - i,
    {
        proof {
            reveal_strlit("/");
        }
        let c = &commands[i];
        let mut name = String::new();
        name.append("/");
        name.append(c.name.as_str());
        let it = SelectItem::new(
            name.as_str(),
            c.description.as_str(),
            c.template.as_str(),
            "COMMANDS",
        );
        proof {
            assert(name@ =~= seq!['/'] + c.name@);
            assert(it@ =~~= command_item_view(commands@[i as int]@));
        }
        r.push(it);
        i += 1;
    }
    r
}

/// The menu entry for one agent: an `@`-prefixed name, and that name with
/// a trailing space as the value.
pub open spec fn agent_item_view(a: crate::server::AgentView) -> ItemView {
    ItemView {
        name: seq!['@'] + a.name,
        description: a.description,
        value: seq!['@'] + a.name + seq![' '],
        category: "AGENTS"@,
    }
}

/// The menu entries for a list of agents: only subagents appear.
pub open spec fn agent_items_view(ags: Seq<crate::server::AgentView>) -> Seq<ItemView>
    decreases ags.len(),
{
    if ags.len() == 0 {
        seq![]
    } else {
        agent_items_view(ags.drop_last()) + (if ags.last().mode == "subagent"@ {
            seq![agent_item_view(ags.last())]
        } else {
            Seq::<ItemView>::empty()
        })
    }
}

/// The views of a list of agents.
pub open spec fn agent_views(ags: Seq<Agent>) -> Seq<crate::server::AgentView> {
    ags.map_values(|a: Agent| a@)
}

/// Subagents as menu entries.
pub fn agents_to_select_items(agents: &[Agent]) -> (r: Vec<SelectItem>)
    ensures
        items_view(r@) == agent_items_view(agent_views(agents@)),
{
    proof {
        reveal_strlit("@");
        reveal_strlit(" ");
    }
    let mut r: Vec<SelectItem> = Vec::new();
    let mut i: usize = 0;
    while i < agents.len()
        invariant
            i <= agents@.len(),
            items_view(r@) == agent_items_view(agent_views(agents@.take(i as int))),
        decreases agents@.len() - i,
    {
        let ghost prev = agent_views(agents@.take(i as int));
        let ghost cur = agent_views(agents@.take(i + 1));
        proof {
            assert(cur.drop_last() =~= prev);
            assert(cur.last() == agents@[i as int]@);
        }
        proof {
            reveal_strlit("@");
            reveal_strlit(" ");
        }
        let a = &agents[i];
        if str_eq(a.mode.as_str(), "subagent") {
            let mut name = String::new();
            name.append("@");
            name.append(a.name.as_str());
            let mut value = String::new();
            value.append("@");
            value.append(a.name.as_str());
            value.append(" ");
            let it = SelectItem::new(
                name.as_str(),
                a.description.as_str(),
                value.as_str(),
                "AGENTS",
            );
            r.push(it);
            proof {
                assert(name@ =~= seq!['@'] + a.name@);
                assert(value@ =~= seq!['@'] + a.name@ + seq![' ']);
                assert(it@ =~~= agent_item_view(agents@[i as int]@));
                assert(items_view(r@) =~~= agent_items_view(cur));
            }
        } else {
            proof {
                assert(agent_items_view(cur) =~= agent_items_view(prev));
            }
        }
        i += 1;
    }
    proof {
        assert(agents@.take(agents@.len() as int) =~= agents@);
    }
    r
}

} // verus!
