//! Argument parsing for `act refactor`.
//!
//! `--provider`, `--refactoring` and `--file` each take the next token as
//! their value (a later occurrence replaces an earlier one); every other token
//! is a trailing argument, which must have the form `KEY=VALUE`.

use vstd::prelude::*;

use crate::errors::DispatchError;
use crate::structured_event::opt_view;
use crate::text::{
    chars_of, concat2, find_char, first_index, join_strings, joined, lemma_count_first,
    starts_with, str_eq, str_starts_with, string_views,
};

use super::manifests::provider_names_spec;
use super::requirements::{
    missing_requirements_error, missing_requirements_text, refactoring_names_spec,
    unsupported_value_text, validate_provider, validate_refactoring,
};

verus! {

/// Parsed `act refactor` arguments.
#[derive(Debug, Clone)]
pub struct RefactorArgs {
    pub provider: String,
    pub refactoring: String,
    pub file: String,
    pub extra: Vec<String>,
}

/// Flag values and trailing arguments gathered so far.
pub struct BuilderModel {
    pub provider: Option<Seq<char>>,
    pub refactoring: Option<Seq<char>>,
    pub file: Option<Seq<char>>,
    pub extra: Seq<Seq<char>>,
}

/// Accumulates parsed flag values during argument iteration.
pub struct RefactorArgsBuilder {
    pub provider: Option<String>,
    pub refactoring: Option<String>,
    pub file: Option<String>,
    pub extra: Vec<String>,
}

impl RefactorArgsBuilder {
    pub open spec fn model(&self) -> BuilderModel {
        BuilderModel {
            provider: opt_view(self.provider),
            refactoring: opt_view(self.refactoring),
            file: opt_view(self.file),
            extra: string_views(self.extra@),
        }
    }
}

/// The builder before any argument.
pub open spec fn empty_builder() -> BuilderModel {
    BuilderModel { provider: None, refactoring: None, file: None, extra: Seq::empty() }
}

/// The flags that take a value.
pub open spec fn is_value_flag(a: Seq<char>) -> bool {
    a == "--provider"@ || a == "--refactoring"@ || a == "--file"@
}

/// The builder with `flag` set to `value`.
pub open spec fn with_flag(b: BuilderModel, flag: Seq<char>, value: Seq<char>) -> BuilderModel {
    if flag == "--provider"@ {
        BuilderModel { provider: Some(value), ..b }
    } else if flag == "--refactoring"@ {
        BuilderModel { refactoring: Some(value), ..b }
    } else {
        BuilderModel { file: Some(value), ..b }
    }
}

/// Reads the remaining tokens into the builder: a value flag takes the next
/// token, which must exist and not start with `--`.
pub open spec fn scan_args(args: Seq<Seq<char>>, b: BuilderModel) -> Result<BuilderModel, Seq<char>>
    decreases args.len(),
{
    if args.len() == 0 {
        Ok(b)
    } else if is_value_flag(args[0]) {
        if args.len() < 2 || starts_with(args[1], "--"@) {
            Err(args[0] + " requires a value"@)
        } else {
            scan_args(args.subrange(2, args.len() as int), with_flag(b, args[0], args[1]))
        }
    } else {
        scan_args(args.drop_first(), BuilderModel { extra: b.extra.push(args[0]), ..b })
    }
}

/// `KEY=VALUE` with a non-empty key, not starting with `--`.
pub open spec fn valid_extra_spec(a: Seq<char>) -> bool {
    &&& !starts_with(a, "--"@)
    &&& 0 < first_index(a, '=') < a.len()
}

/// The trailing arguments that are not `KEY=VALUE`, in order.
pub open spec fn invalid_extras(extra: Seq<Seq<char>>) -> Seq<Seq<char>>
    decreases extra.len(),
{
    if extra.len() == 0 {
        Seq::empty()
    } else {
        let rest = invalid_extras(extra.drop_last());
        if valid_extra_spec(extra.last()) {
            rest
        } else {
            rest.push(extra.last())
        }
    }
}

/// Each text in single quotes.
pub open spec fn quoted(items: Seq<Seq<char>>) -> Seq<Seq<char>> {
    items.map_values(|t: Seq<char>| "'"@ + t + "'"@)
}

/// The message for malformed trailing arguments.
pub open spec fn invalid_extras_text(invalid: Seq<Seq<char>>) -> Seq<char> {
    "act refactor only accepts trailing KEY=VALUE arguments; invalid trailing arguments: "@
        + joined(quoted(invalid), ", "@)
        + ". Use only --provider <plugin>, --refactoring <operation>, --file <path>, and trailing KEY=VALUE arguments"@
}

/// Validated arguments as plain values: provider, refactoring, file and the
/// trailing arguments.
pub open spec fn build_spec(b: BuilderModel) -> Result<
    (Seq<char>, Seq<char>, Seq<char>, Seq<Seq<char>>),
    Seq<char>,
> {
    match (b.provider, b.refactoring, b.file) {
        (Some(provider), Some(refactoring), Some(file)) => if invalid_extras(b.extra).len() > 0 {
            Err(invalid_extras_text(invalid_extras(b.extra)))
        } else if !provider_names_spec().contains(provider) {
            Err(unsupported_value_text("provider"@, provider))
        } else if !refactoring_names_spec().contains(refactoring) {
            Err(unsupported_value_text("refactoring"@, refactoring))
        } else {
            Ok((provider, refactoring, file, b.extra))
        },
        _ => Err(missing_requirements_text()),
    }
}

/// The outcome of parsing the tokens of an `act refactor` request.
pub open spec fn refactor_args_spec(args: Seq<Seq<char>>) -> Result<
    (Seq<char>, Seq<char>, Seq<char>, Seq<Seq<char>>),
    Seq<char>,
> {
    match scan_args(args, empty_builder()) {
        Ok(b) => build_spec(b),
        Err(m) => Err(m),
    }
}

/// Parsed arguments as plain values.
pub open spec fn args_view(a: RefactorArgs) -> (Seq<char>, Seq<char>, Seq<char>, Seq<Seq<char>>) {
    (a.provider@, a.refactoring@, a.file@, string_views(a.extra@))
}

impl RefactorArgsBuilder {
    /// A builder with nothing set.
    pub fn new() -> (b: Self)
        ensures
            b.model() == empty_builder(),
    {
        let b = RefactorArgsBuilder { provider: None, refactoring: None, file: None, extra: Vec::new() };
        assert(b.model().extra =~= Seq::<Seq<char>>::empty());
        b
    }

    /// Finalizes the builder and validates the operator-facing contract:
    /// all three flags present, trailing arguments well formed, provider and
    /// refactoring supported, in that order.
    pub fn build(self) -> (r: Result<RefactorArgs, DispatchError>)
        ensures
            match build_spec(self.model()) {
                Ok(v) => r matches Ok(a) && args_view(a) == v,
                Err(m) => r matches Err(DispatchError::InvalidArguments { message }) && message@
                    == m,
            },
    {
        let ghost model = self.model();
        let provider = match self.provider {
            Some(p) => p,
            None => {
                return Err(missing_requirements_error());
            },
        };
        let refactoring = match self.refactoring {
            Some(p) => p,
            None => {
                return Err(missing_requirements_error());
            },
        };
        let file = match self.file {
            Some(p) => p,
            None => {
                return Err(missing_requirements_error());
            },
        };
        let extra = self.extra;
        let mut offending: Vec<String> = Vec::new();
        let mut i: usize = 0;
        while i < extra.len()
            invariant
                i <= extra.len(),
                model.extra == string_views(extra@),
                string_views(offending@) == quoted(
                    invalid_extras(model.extra.subrange(0, i as int)),
                ),
            decreases extra.len() - i,
        {
            let ghost pre = model.extra.subrange(0, i as int);
            assert(model.extra.subrange(0, i + 1).drop_last() =~= pre);
            if !is_valid_extra_argument(extra[i].as_str()) {
                let mut q = String::from_str("'");
                q.append(extra[i].as_str());
                q.append("'");
                let ghost prev = invalid_extras(pre);
                let ghost x = model.extra[i as int];
                assert(model.extra.subrange(0, i + 1).last() == x);
                assert(invalid_extras(model.extra.subrange(0, i + 1)) == prev.push(x));
                assert(quoted(prev.push(x)) =~= quoted(prev).push("'"@ + x + "'"@));
                offending.push(q);
                assert(string_views(offending@) =~= quoted(prev).push("'"@ + x + "'"@));
            }
            i = i + 1;
        }
        assert(model.extra.subrange(0, extra.len() as int) =~= model.extra);
        if offending.len() > 0 {
            let mut m = String::from_str(
                "act refactor only accepts trailing KEY=VALUE arguments; invalid trailing arguments: ",
            );
            let tokens = join_strings(&offending, ", ");
            m.append(tokens.as_str());
            m.append(
                ". Use only --provider <plugin>, --refactoring <operation>, --file <path>, and trailing KEY=VALUE arguments",
            );
            return Err(DispatchError::InvalidArguments { message: m });
        }
        match validate_provider(provider.as_str()) {
            Ok(()) => {},
            Err(e) => {
                return Err(e);
            },
        }
        match validate_refactoring(refactoring.as_str()) {
            Ok(()) => {},
            Err(e) => {
                return Err(e);
            },
        }
        Ok(RefactorArgs { provider, refactoring, file, extra })
    }
}

/// Parses the raw daemon request arguments for `act refactor`.
///
/// Fails with `InvalidArguments` when a value flag has no value (or is
/// followed by another `--` token), when a required flag is missing, when a
/// trailing argument is not `KEY=VALUE`, or when the provider or refactoring
/// is not supported.
pub fn parse_refactor_args(arguments: &[String]) -> (r: Result<RefactorArgs, DispatchError>)
    ensures
        match refactor_args_spec(string_views(arguments@)) {
            Ok(v) => r matches Ok(a) && args_view(a) == v,
            Err(m) => r matches Err(DispatchError::InvalidArguments { message }) && message@ == m,
        },
{
    let ghost args = string_views(arguments@);
    let mut builder = RefactorArgsBuilder::new();
    let mut i: usize = 0;
    assert(args.subrange(0, args.len() as int) =~= args);
    while i < arguments.len()
        invariant
            i <= arguments@.len(),
            args == string_views(arguments@),
            scan_args(args, empty_builder()) == scan_args(
                args.subrange(i as int, args.len() as int),
                builder.model(),
            ),
        decreases arguments@.len() - i,
    {
        let consumed = apply_flag(arguments, i, &mut builder)?;
        i = i + consumed;
    }
    assert(args.subrange(i as int, args.len() as int).len() == 0);
    builder.build()
}

/// Classifies the token at `index`: a value flag takes the next token as its
/// value (two tokens read), anything else is a trailing argument (one token
/// read). Returns how many tokens were read.
pub fn apply_flag(arguments: &[String], index: usize, builder: &mut RefactorArgsBuilder) -> (r: Result<
    usize,
    DispatchError,
>)
    requires
        index < arguments@.len(),
    ensures
        ({
            let args = string_views(arguments@);
            let rest = args.subrange(index as int, args.len() as int);
            match r {
                Ok(n) => 1 <= n <= args.len() - index && scan_args(rest, old(builder).model())
                    == scan_args(
                    args.subrange(index + n, args.len() as int),
                    final(builder).model(),
                ),
                Err(e) => e matches DispatchError::InvalidArguments { message } && scan_args(
                    rest,
                    old(builder).model(),
                ) == Err::<BuilderModel, Seq<char>>(message@),
            }
        }),
{
    let ghost args = string_views(arguments@);
    let ghost rest = args.subrange(index as int, args.len() as int);
    let arg = arguments[index].as_str();
    assert(rest[0] == arg@);
    if str_eq(arg, "--provider") || str_eq(arg, "--refactoring") || str_eq(arg, "--file") {
        let value = parse_flag_value(arg, arguments, index + 1)?;
        assert(rest[1] == args[index + 1]);
        assert(rest.subrange(2, rest.len() as int) =~= args.subrange(index + 2, args.len() as int));
        let ghost before = builder.model();
        if str_eq(arg, "--provider") {
            builder.provider = Some(value);
        } else if str_eq(arg, "--refactoring") {
            builder.refactoring = Some(value);
        } else {
            builder.file = Some(value);
        }
        assert(builder.model() == with_flag(before, arg@, args[index + 1]));
        Ok(2)
    } else {
        let ghost before = builder.model();
        builder.extra.push(arguments[index].clone());
        assert(builder.model().extra =~= before.extra.push(arg@));
        assert(rest.drop_first() =~= args.subrange(index + 1, args.len() as int));
        Ok(1)
    }
}

/// The value of `flag`: the token at `next`, which must exist and must not
/// start with `--`.
pub fn parse_flag_value(flag: &str, arguments: &[String], next: usize) -> (r: Result<
    String,
    DispatchError,
>)
    ensures
        next < arguments@.len() && !starts_with(arguments@[next as int]@, "--"@) ==> (r matches Ok(
            v,
        ) && v@ == arguments@[next as int]@),
        !(next < arguments@.len() && !starts_with(arguments@[next as int]@, "--"@)) ==> (r matches Err(
            DispatchError::InvalidArguments { message },
        ) && message@ == flag@ + " requires a value"@),
{
    if next >= arguments.len() {
        return Err(DispatchError::InvalidArguments { message: concat2(flag, " requires a value") });
    }
    let value = &arguments[next];
    if str_starts_with(value.as_str(), "--") {
        return Err(DispatchError::InvalidArguments { message: concat2(flag, " requires a value") });
    }
    Ok(value.clone())
}

/// Whether a trailing argument is `KEY=VALUE` with a non-empty key and does
/// not start with `--`.
pub fn is_valid_extra_argument(argument: &str) -> (r: bool)
    ensures
        r == valid_extra_spec(argument@),
{
    if str_starts_with(argument, "--") {
        return false;
    }
    let chars = chars_of(argument);
    let k = find_char(&chars, '=');
    proof {
        lemma_count_first(argument@, '=');
    }
    k < chars.len() && k > 0
}

/// With no invalid trailing argument, every trailing argument is valid.
proof fn lemma_no_invalid_extras(extra: Seq<Seq<char>>)
    requires
        invalid_extras(extra).len() == 0,
    ensures
        forall|i: int| 0 <= i < extra.len() ==> valid_extra_spec(#[trigger] extra[i]),
    decreases extra.len(),
{
    if extra.len() > 0 {
        let p = extra.drop_last();
        if invalid_extras(p).len() > 0 {
            assert(invalid_extras(extra).len() >= invalid_extras(p).len());
        }
        lemma_no_invalid_extras(p);
        assert forall|i: int| 0 <= i < extra.len() implies valid_extra_spec(#[trigger] extra[i]) by {
            if i < p.len() {
                assert(extra[i] == p[i]);
            }
        }
    }
}

/// Accepted arguments name a supported provider and refactoring, and every
/// trailing argument is `KEY=VALUE`.
pub proof fn lemma_accepted_args_are_supported(args: Seq<Seq<char>>)
    requires
        refactor_args_spec(args) is Ok,
    ensures
        ({
            let (provider, refactoring, _file, extra) = refactor_args_spec(args)->Ok_0;
            &&& provider_names_spec().contains(provider)
            &&& refactoring_names_spec().contains(refactoring)
            &&& forall|i: int| 0 <= i < extra.len() ==> valid_extra_spec(#[trigger] extra[i])
        }),
{
    let b = scan_args(args, empty_builder())->Ok_0;
    lemma_no_invalid_extras(b.extra);
}

} // verus!
