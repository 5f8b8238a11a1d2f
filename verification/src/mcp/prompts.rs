//! Prompts offered to agents: pre-configured conversation templates.
//!
//! The protocol types that carry them are built outside the library; their
//! names, arguments and texts are decided here.

use vstd::prelude::*;
use crate::text::str_equal;

verus! {

/// An argument that a prompt takes.
#[derive(Debug, Clone)]
pub struct PromptArgumentSpec {
    pub name: String,
    pub description: String,
    pub required: bool,
}

/// A prompt as listed to agents.
#[derive(Debug, Clone)]
pub struct PromptSpec {
    pub name: String,
    pub description: String,
    /// `None` for a prompt without arguments.
    pub arguments: Option<Vec<PromptArgumentSpec>>,
}

/// The string values among a prompt request's arguments.
#[derive(Debug, Clone)]
pub struct PromptArguments {
    pub command: Option<String>,
    pub steps: Option<String>,
    pub pane_id: Option<String>,
}

/// A filled-in prompt: its description and the single user message.
#[derive(Debug, Clone)]
pub struct PromptText {
    pub description: String,
    pub message: String,
}

fn argument(name: &str, description: &str, required: bool) -> (a: PromptArgumentSpec)
    ensures
        a.name@ == name@,
        a.description@ == description@,
        a.required == required,
{
    PromptArgumentSpec { name: String::from_str(name), description: String::from_str(description), required }
}

/// The prompts, in the order they are listed: `terminal-debug` (optional
/// `pane_id`, required `command`), `pane-overview` (no arguments) and
/// `command-workflow` (optional `pane_id`, required `steps`).
pub fn list() -> (prompts: Vec<PromptSpec>)
    ensures
        prompts@.len() == 3,
        prompts@[0].name@ == "terminal-debug"@,
        prompts@[0].description@ == "Debug a failed command in a terminal pane"@,
        prompts@[0].arguments matches Some(a) && a@.len() == 2 && a@[0].name@ == "pane_id"@
            && !a@[0].required && a@[1].name@ == "command"@ && a@[1].required,
        prompts@[1].name@ == "pane-overview"@,
        prompts@[1].description@ == "Get an overview of all terminal panes and their states"@,
        prompts@[1].arguments is None,
        prompts@[2].name@ == "command-workflow"@,
        prompts@[2].description@ == "Execute a multi-step command workflow in terminal"@,
        prompts@[2].arguments matches Some(a) && a@.len() == 2 && a@[0].name@ == "pane_id"@
            && !a@[0].required && a@[1].name@ == "steps"@ && a@[1].required,
{
    let mut debug_args: Vec<PromptArgumentSpec> = Vec::new();
    debug_args.push(argument("pane_id", "Pane ID to inspect (uses active pane if omitted)", false));
    debug_args.push(argument("command", "The command that failed", true));
    let mut workflow_args: Vec<PromptArgumentSpec> = Vec::new();
    workflow_args.push(argument("pane_id", "Pane ID to use (uses active pane if omitted)", false));
    workflow_args.push(argument("steps", "Comma-separated list of commands to execute", true));
    let mut prompts: Vec<PromptSpec> = Vec::new();
    prompts.push(
        PromptSpec {
            name: String::from_str("terminal-debug"),
            description: String::from_str("Debug a failed command in a terminal pane"),
            arguments: Some(debug_args),
        },
    );
    prompts.push(
        PromptSpec {
            name: String::from_str("pane-overview"),
            description: String::from_str("Get an overview of all terminal panes and their states"),
            arguments: None,
        },
    );
    prompts.push(
        PromptSpec {
            name: String::from_str("command-workflow"),
            description: String::from_str("Execute a multi-step command workflow in terminal"),
            arguments: Some(workflow_args),
        },
    );
    prompts
}

/// The pane a prompt names: the `pane_id` argument, else `active pane`.
pub open spec fn pane_label(args: PromptArguments) -> Seq<char> {
    match args.pane_id {
        Some(p) => p@,
        None => "active pane"@,
    }
}

/// The message of `terminal-debug`.
pub open spec fn debug_message(pane: Seq<char>, command: Seq<char>) -> Seq<char> {
    "Analyze the terminal output from pane "@ + pane + " after running `"@ + command
        + "`.\nUse crux_get_output to see the recent output, then:\n1. Identify the error message\n2. Determine the root cause\n3. Suggest a fix"@
}

/// The message of `pane-overview`.
pub open spec fn overview_message() -> Seq<char> {
    "List all terminal panes using crux_list_panes, then for each pane:\n1. Check the current working directory and running process via crux_get_pane_state\n2. Get the last few lines of output via crux_get_output\n3. Summarize each pane's purpose and status"@
}

/// The message of `command-workflow`.
pub open spec fn workflow_message(pane: Seq<char>, steps: Seq<char>) -> Seq<char> {
    "Execute the following commands sequentially in pane "@ + pane + ":\n"@ + steps
        + "\n\nFor each command:\n1. Run it with crux_execute_command\n2. Check output for errors with crux_get_output\n3. If an error occurs, stop and report the issue\n4. Wait for completion with crux_wait_for_output if needed"@
}

/// What a prompt request yields: the filled-in prompt, or the message of an
/// invalid-params error.
pub open spec fn spec_get(name: Seq<char>, args: Option<PromptArguments>) -> Result<(Seq<char>, Seq<char>), Seq<char>> {
    if name == "terminal-debug"@ {
        match args {
            None => Err("terminal-debug requires arguments"@),
            Some(a) => match a.command {
                None => Err("missing required argument: command"@),
                Some(c) => Ok(
                    (
                        "Debug `"@ + c@ + "` in pane "@ + pane_label(a),
                        debug_message(pane_label(a), c@),
                    ),
                ),
            },
        }
    } else if name == "pane-overview"@ {
        Ok(("Overview of all terminal panes"@, overview_message()))
    } else if name == "command-workflow"@ {
        match args {
            None => Err("command-workflow requires arguments"@),
            Some(a) => match a.steps {
                None => Err("missing required argument: steps"@),
                Some(s) => Ok(
                    ("Execute workflow in pane "@ + pane_label(a), workflow_message(pane_label(a), s@)),
                ),
            },
        }
    } else {
        Err("unknown prompt: "@ + name)
    }
}

fn pane_label_of(args: &PromptArguments) -> (r: String)
    ensures
        r@ == pane_label(*args),
{
    match &args.pane_id {
        Some(p) => p.clone(),
        None => String::from_str("active pane"),
    }
}

/// Fill in the prompt `name` with the request's arguments.
pub fn get(name: &str, arguments: &Option<PromptArguments>) -> (r: Result<PromptText, String>)
    ensures
        match (r, spec_get(name@, *arguments)) {
            (Ok(t), Ok((d, m))) => t.description@ == d && t.message@ == m,
            (Err(e), Err(m)) => e@ == m,
            _ => false,
        },
{
    if str_equal(name, "terminal-debug") {
        let args = match arguments {
            None => return Err(String::from_str("terminal-debug requires arguments")),
            Some(a) => a,
        };
        let command = match &args.command {
            None => return Err(String::from_str("missing required argument: command")),
            Some(c) => c,
        };
        let pane = pane_label_of(args);
        let message = String::from_str("Analyze the terminal output from pane ").concat(pane.as_str()).concat(
            " after running `",
        ).concat(command.as_str()).concat(
            "`.\nUse crux_get_output to see the recent output, then:\n1. Identify the error message\n2. Determine the root cause\n3. Suggest a fix",
        );
        let description = String::from_str("Debug `").concat(command.as_str()).concat("` in pane ").concat(
            pane.as_str(),
        );
        Ok(PromptText { description, message })
    } else if str_equal(name, "pane-overview") {
        Ok(
            PromptText {
                description: String::from_str("Overview of all terminal panes"),
                message: String::from_str(
                    "List all terminal panes using crux_list_panes, then for each pane:\n1. Check the current working directory and running process via crux_get_pane_state\n2. Get the last few lines of output via crux_get_output\n3. Summarize each pane's purpose and status",
                ),
            },
        )
    } else if str_equal(name, "command-workflow") {
        let args = match arguments {
            None => return Err(String::from_str("command-workflow requires arguments")),
            Some(a) => a,
        };
        let steps = match &args.steps {
            None => return Err(String::from_str("missing required argument: steps")),
            Some(s) => s,
        };
        let pane = pane_label_of(args);
        let message = String::from_str("Execute the following commands sequentially in pane ").concat(
            pane.as_str(),
        ).concat(":\n").concat(steps.as_str()).concat(
            "\n\nFor each command:\n1. Run it with crux_execute_command\n2. Check output for errors with crux_get_output\n3. If an error occurs, stop and report the issue\n4. Wait for completion with crux_wait_for_output if needed",
        );
        let description = String::from_str("Execute workflow in pane ").concat(pane.as_str());
        Ok(PromptText { description, message })
    } else {
        Err(String::from_str("unknown prompt: ").concat(name))
    }
}

} // verus!
