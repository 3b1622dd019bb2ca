//! Construction of the conversion tool's argument vector.

use vstd::prelude::*;
use vstd::seq_lib::*;
use vstd::string::StringExecFns;
use crate::decimal::int_dec_rep;
use crate::decimal::i32_to_string;
use crate::options::File2BookOptions;

verus! {

/// The full argument vector for one invocation: the module selector pair,
/// the input path verbatim, the two always-present flags, and the depth
/// flag only when a depth was supplied.
pub open spec fn spec_cli_arguments(
    input: Seq<char>,
    page: Seq<char>,
    ratio: Seq<char>,
    depth: Option<int>,
) -> Seq<Seq<char>> {
    let base = seq![
        "-m"@,
        "file2book"@,
        input,
        "--page-size="@ + page,
        "--aspect-ratio="@ + ratio,
    ];
    match depth {
        Some(d) => base.push("--depth="@ + int_dec_rep(d)),
        None => base,
    }
}

/// Builds the command-line arguments handed to the interpreter, exactly as
/// [`spec_cli_arguments`] lays them out.
pub fn build_cli_arguments(input_path: &str, options: &File2BookOptions) -> (args: Vec<String>)
    ensures
        args@.map_values(|a: String| a@) == spec_cli_arguments(
            input_path@,
            options@.page_size,
            options@.aspect_ratio,
            options@.depth,
        ),
        args@.len() == (if options@.depth is Some {
            6int
        } else {
            5int
        }),
{
    let mut args: Vec<String> = Vec::new();
    args.push(String::from_str("-m"));
    args.push(String::from_str("file2book"));
    args.push(String::from_str(input_path));
    let mut page = String::from_str("--page-size=");
    page.append(options.page_size.as_str());
    args.push(page);
    let mut ratio = String::from_str("--aspect-ratio=");
    ratio.append(options.aspect_ratio.as_str());
    args.push(ratio);
    if let Some(d) = options.depth {
        let mut depth_arg = String::from_str("--depth=");
        depth_arg.append(i32_to_string(d).as_str());
        args.push(depth_arg);
    }
    proof {
        assert(args@.map_values(|a: String| a@) =~= spec_cli_arguments(
            input_path@,
            options@.page_size,
            options@.aspect_ratio,
            options@.depth,
        ));
    }
    args
}

/// The argument vector always begins with the module-selector pair followed
/// immediately by the input path, whatever the options say.
pub proof fn lemma_fixed_prefix(
    input: Seq<char>,
    page: Seq<char>,
    ratio: Seq<char>,
    depth: Option<int>,
)
    ensures
        spec_cli_arguments(input, page, ratio, depth).len() >= 5,
        spec_cli_arguments(input, page, ratio, depth)[0] == "-m"@,
        spec_cli_arguments(input, page, ratio, depth)[1] == "file2book"@,
        spec_cli_arguments(input, page, ratio, depth)[2] == input,
{
}

/// With a depth supplied, the depth flag is the last argument.
pub proof fn lemma_depth_flag_last(input: Seq<char>, page: Seq<char>, ratio: Seq<char>, d: int)
    ensures
        spec_cli_arguments(input, page, ratio, Some(d)).len() == 6,
        spec_cli_arguments(input, page, ratio, Some(d)).last() == "--depth="@ + int_dec_rep(d),
{
}

/// With a depth supplied, the depth flag is carried by exactly one
/// argument, the last — provided the input path itself does not begin with
/// `--depth=`, since the input path passes through verbatim.
pub proof fn lemma_depth_flag_unique(input: Seq<char>, page: Seq<char>, ratio: Seq<char>, d: int)
    requires
        !"--depth="@.is_prefix_of(input),
    ensures
        "--depth="@.is_prefix_of(spec_cli_arguments(input, page, ratio, Some(d)).last()),
        forall|i: int|
            0 <= i < spec_cli_arguments(input, page, ratio, Some(d)).len() - 1
                ==> !"--depth="@.is_prefix_of(#[trigger] spec_cli_arguments(
                input,
                page,
                ratio,
                Some(d),
            )[i]),
{
    let p = "--depth="@;
    let args = spec_cli_arguments(input, page, ratio, Some(d));
    let base = spec_cli_arguments(input, page, ratio, None);
    assert(args.last() == p + int_dec_rep(d));
    assert(p.is_prefix_of(args.last())) by {
        assert((p + int_dec_rep(d)).subrange(0, p.len() as int) =~= p);
    }
    lemma_no_depth_flag_when_absent(input, page, ratio);
    assert forall|i: int| 0 <= i < args.len() - 1 implies !p.is_prefix_of(#[trigger] args[i]) by {
        assert(args[i] == base[i]);
        assert(!p.is_prefix_of(base[i]));
    }
}

/// With no depth supplied, no argument begins with `--depth=` — provided the
/// input path itself does not, since the input path passes through verbatim.
pub proof fn lemma_no_depth_flag_when_absent(input: Seq<char>, page: Seq<char>, ratio: Seq<char>)
    requires
        !"--depth="@.is_prefix_of(input),
    ensures
        forall|i: int|
            0 <= i < spec_cli_arguments(input, page, ratio, None).len()
                ==> !"--depth="@.is_prefix_of(#[trigger] spec_cli_arguments(
                input,
                page,
                ratio,
                None,
            )[i]),
{
    let args = spec_cli_arguments(input, page, ratio, None);
    reveal_strlit("-m");
    reveal_strlit("file2book");
    reveal_strlit("--depth=");
    reveal_strlit("--page-size=");
    reveal_strlit("--aspect-ratio=");
    assert forall|i: int| 0 <= i < args.len() implies !"--depth="@.is_prefix_of(
        #[trigger] args[i],
    ) by {
        let p = "--depth="@;
        if i == 0 {
            assert(args[0].len() < p.len());
        } else if i == 1 {
            assert(!p.is_prefix_of(args[1])) by {
                assert(args[1][0] != p[0]);
            }
        } else if i == 2 {
        } else if i == 3 {
            assert(!p.is_prefix_of(args[3])) by {
                assert(args[3][2] != p[2]);
            }
        } else {
            assert(!p.is_prefix_of(args[4])) by {
                assert(args[4][2] != p[2]);
            }
        }
    }
}

} // verus!
