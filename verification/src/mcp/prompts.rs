//! Prompts: guidance texts for common tasks of an agent, with the task's
//! particulars filled in.

use vstd::prelude::*;
use crate::text::str_eq;

verus! {

/// The prompts that the server offers.
pub struct PromptHandler;

/// The value of the first argument named `key`, or `default`.
pub open spec fn arg_or(args: Seq<(String, String)>, key: Seq<char>, default: Seq<char>) -> Seq<char>
    decreases args.len(),
{
    if args.len() == 0 {
        default
    } else if args[0].0@ == key {
        args[0].1@
    } else {
        arg_or(args.drop_first(), key, default)
    }
}

/// The value of the first argument named `key`, or `default`.
fn argument_or(args: &Vec<(String, String)>, key: &str, default: &str) -> (r: String)
    ensures
        r@ == arg_or(args@, key@, default@),
{
    let mut i: usize = 0;
    assert(args@.skip(0) =~= args@);
    while i < args.len()
        invariant
            i <= args@.len(),
            arg_or(args@.skip(i as int), key@, default@) == arg_or(args@, key@, default@),
        decreases args@.len() - i,
    {
        assert(args@.skip(i as int)[0] == args@[i as int]);
        assert(args@.skip(i as int).drop_first() =~= args@.skip(i + 1));
        if str_eq(args[i].0.as_str(), key) {
            return args[i].1.clone();
        }
        i = i + 1;
    }
    String::from_str(default)
}

/// `a` + `x` + `b`.
fn fill1(a: &str, x: &str, b: &str) -> (r: String)
    ensures
        r@ == a@ + x@ + b@,
{
    let mut r = String::from_str(a);
    r.append(x);
    r.append(b);
    r
}

/// `a` + `x` + `b` + `y` + `c`.
fn fill2(a: &str, x: &str, b: &str, y: &str, c: &str) -> (r: String)
    ensures
        r@ == a@ + x@ + b@ + y@ + c@,
{
    let mut r = String::from_str(a);
    r.append(x);
    r.append(b);
    r.append(y);
    r.append(c);
    r
}

/// The description and text of the prompt `name` with the arguments
/// `args`, or `None` for an unknown prompt.
pub open spec fn prompt_view(name: Seq<char>, args: Seq<(String, String)>) -> Option<(Seq<char>, Seq<char>)> {
    if name == "architect_system"@ {
        Some(("System architecture design guide"@,
            ARCHITECT_A@ + arg_or(args, "system_description"@, "a software system"@) + ARCHITECT_B@
                + arg_or(args, "technology_stack"@, "general"@) + ARCHITECT_C@))
    } else if name == "analyze_architecture"@ {
        Some(("Architecture analysis guide"@, ANALYZE_A@ + arg_or(args, "specification"@, ""@) + ANALYZE_B@))
    } else if name == "create_pattern"@ {
        Some(("Pattern creation guide"@,
            PATTERN_A@ + arg_or(args, "pattern_purpose"@, "reusable architectural constraint"@) + PATTERN_B@
                + arg_or(args, "pattern_type"@, "structural"@) + PATTERN_C@))
    } else if name == "fix_violations"@ {
        Some(("Violation fix guide"@, FIX_A@ + arg_or(args, "violations"@, ""@) + FIX_B@))
    } else if name == "implement_pattern"@ {
        Some(("Pattern implementation guide"@,
            IMPLEMENT_A@ + arg_or(args, "pattern_name"@, "pattern"@) + IMPLEMENT_B@
                + arg_or(args, "context"@, "No additional context provided"@) + IMPLEMENT_C@))
    } else {
        None
    }
}

pub const ARCHITECT_A: &'static str = "You are an expert software architect helping to design a system using Hielements.\n\n## System to Design\n";
pub const ARCHITECT_B: &'static str = "\n\n## Technology Stack\n";
pub const ARCHITECT_C: &'static str = "\n\n## Your Task\nCreate a Hielements specification that:\n1. Defines the main components as `element` declarations\n2. Uses appropriate scopes to bind to code/artifacts\n3. Establishes architectural checks to enforce rules\n4. Uses patterns where applicable\n\nPlease generate a well-structured Hielements specification.";
pub const ANALYZE_A: &'static str = "You are an expert software architect analyzing a Hielements specification.\n\n## Specification to Analyze\n```hielements\n";
pub const ANALYZE_B: &'static str = "\n```\n\n## Analysis Tasks\n1. Structure Analysis: Identify the main elements and their relationships\n2. Pattern Recognition: Identify any patterns being used\n3. Check Coverage: Assess the completeness of architectural checks\n4. Improvement Suggestions: Recommend enhancements\n\nPlease provide a thorough analysis with actionable recommendations.";
pub const PATTERN_A: &'static str = "You are an expert software architect creating a reusable Hielements pattern.\n\n## Pattern Purpose\n";
pub const PATTERN_B: &'static str = "\n\n## Pattern Type\n";
pub const PATTERN_C: &'static str = "\n\n## Your Task\nCreate a Hielements pattern that:\n1. Uses the `pattern` keyword to declare the blueprint\n2. Defines unbounded scopes with language annotations\n3. Includes appropriate checks for the pattern's constraints\n4. Documents the pattern with comments\n\nPlease generate a well-documented, reusable pattern.";
pub const FIX_A: &'static str = "You are an expert software architect helping to fix architectural violations.\n\n## Violations to Address\n";
pub const FIX_B: &'static str = "\n\n## Your Task\nFor each violation:\n1. Understand the Issue: Explain what the check is verifying\n2. Root Cause: Identify why the check is failing\n3. Fix Options: Provide potential solutions\n4. Implementation: Show how to fix the code or specification\n\nPlease analyze each violation and provide actionable fixes.";
pub const IMPLEMENT_A: &'static str = "You are an expert software architect helping to implement an architectural pattern.\n\n## Pattern to Implement\n";
pub const IMPLEMENT_B: &'static str = "\n\n## Context\n";
pub const IMPLEMENT_C: &'static str = "\n\n## Your Task\n1. Understand the Pattern: Review the pattern's requirements\n2. Map to Codebase: Identify how pattern elements map to actual code\n3. Create Bindings: Write the element implementation with binds clauses\n4. Verify Compliance: Ensure all pattern requirements are satisfied\n\nPlease provide a complete pattern implementation.";

impl PromptHandler {
    pub fn new() -> (r: Self) {
        PromptHandler
    }

    /// The description and text of the prompt `name`, filled in from
    /// `args` (absent arguments take their defaults); an error naming an
    /// unknown prompt.
    pub fn prompt(&self, name: &str, args: &Vec<(String, String)>) -> (r: Result<(String, String), String>)
        ensures
            match r {
                Ok((d, t)) => prompt_view(name@, args@) == Some((d@, t@)),
                Err(e) => prompt_view(name@, args@) is None && e@ == "Unknown prompt: "@ + name@,
            },
    {
        if str_eq(name, "architect_system") {
            let a = argument_or(args, "system_description", "a software system");
            let b = argument_or(args, "technology_stack", "general");
            Ok((String::from_str("System architecture design guide"),
                fill2(ARCHITECT_A, a.as_str(), ARCHITECT_B, b.as_str(), ARCHITECT_C)))
        } else if str_eq(name, "analyze_architecture") {
            let a = argument_or(args, "specification", "");
            Ok((String::from_str("Architecture analysis guide"), fill1(ANALYZE_A, a.as_str(), ANALYZE_B)))
        } else if str_eq(name, "create_pattern") {
            let a = argument_or(args, "pattern_purpose", "reusable architectural constraint");
            let b = argument_or(args, "pattern_type", "structural");
            Ok((String::from_str("Pattern creation guide"),
                fill2(PATTERN_A, a.as_str(), PATTERN_B, b.as_str(), PATTERN_C)))
        } else if str_eq(name, "fix_violations") {
            let a = argument_or(args, "violations", "");
            Ok((String::from_str("Violation fix guide"), fill1(FIX_A, a.as_str(), FIX_B)))
        } else if str_eq(name, "implement_pattern") {
            let a = argument_or(args, "pattern_name", "pattern");
            let b = argument_or(args, "context", "No additional context provided");
            Ok((String::from_str("Pattern implementation guide"),
                fill2(IMPLEMENT_A, a.as_str(), IMPLEMENT_B, b.as_str(), IMPLEMENT_C)))
        } else {
            let mut e = String::from_str("Unknown prompt: ");
            e.append(name);
            Err(e)
        }
    }
}

} // verus!
