//! Output targets: code generators that reference the packed sprites, and a
//! directory target for the page images.  The code generators build their
//! whole output as a verified string; writing it to disk is the caller's
//! job.

use vstd::prelude::*;

pub mod dir;
pub mod luau;
pub mod typescript;
pub mod typescript_declarations;

verus! {

/// One configured output target.
#[derive(Debug, Clone)]
#[non_exhaustive]
pub enum OutputSpecifier {
    Luau(self::luau::LuauCodegenOutput),
    TypeScript(self::typescript::TypeScriptCodegenOutput),
    TypeScriptDeclarations(self::typescript_declarations::TypeScriptDeclarationsCodegenOutput),
}

/// The short tag for each output target.
pub open spec fn spec_output_type(o: OutputSpecifier) -> Seq<char> {
    match o {
        OutputSpecifier::Luau(_) => "luau"@,
        OutputSpecifier::TypeScript(_) => "ts"@,
        OutputSpecifier::TypeScriptDeclarations(_) => "dts"@,
    }
}

impl OutputSpecifier {
    /// A short tag naming the kind of this output target.
    pub fn output_type(&self) -> (r: String)
        ensures
            r@ == spec_output_type(*self),
    {
        match self {
            Self::Luau(_) => String::from_str("luau"),
            Self::TypeScript(_) => String::from_str("ts"),
            Self::TypeScriptDeclarations(_) => String::from_str("dts"),
        }
    }
}

/// The comment every generated file starts with, under the given comment
/// prefix.
pub open spec fn spec_disclaimer(prefix: Seq<char>) -> Seq<char> {
    prefix + " This file is managed by springroll; manual edits will be overwritten."@
}

/// Build the leading comment of a generated file, given the target
/// language's line-comment prefix.
pub fn create_disclaimer_comment(prefix: &str) -> (r: String)
    ensures
        r@ == spec_disclaimer(prefix@),
{
    let mut out = String::new();
    out.append(prefix);
    out.append(" This file is managed by springroll; manual edits will be overwritten.");
    out
}

} // verus!
