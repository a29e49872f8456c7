//! The command line of the hand-landmark tool.

use vstd::prelude::*;
use vstd::string::StringExecFns;

verus! {

/// The line that tells how `program` is to be called.
pub open spec fn usage_of(program: Seq<char>) -> Seq<char> {
    "Usage: "@ + program + " <model_path> <image_path> [output_image_path]"@
}

/// Reads the command line, the name of the program first: the path of the
/// model, the path of the image and, if it is given, the path to save the
/// picture with the landmarks to. Any other number of arguments is answered
/// with the usage line.
pub fn parse_args(args: &[String]) -> (r: Result<(String, String, Option<String>), String>)
    requires
        args.len() > 0,
    ensures
        match r {
            Ok((model_path, image_path, output_path)) => {
                &&& args.len() == 3 || args.len() == 4
                &&& model_path@ == args[1]@
                &&& image_path@ == args[2]@
                &&& match output_path {
                    Some(path) => args.len() == 4 && path@ == args[3]@,
                    None => args.len() == 3,
                }
            },
            Err(usage) => args.len() != 3 && args.len() != 4 && usage@ == usage_of(args[0]@),
        },
{
    if args.len() != 3 && args.len() != 4 {
        let mut usage = String::from_str("Usage: ");
        usage.append(args[0].as_str());
        usage.append(" <model_path> <image_path> [output_image_path]");
        return Err(usage);
    }
    let output_path: Option<String> = if args.len() == 4 {
        Some(args[3].clone())
    } else {
        None
    };
    Ok((args[1].clone(), args[2].clone(), output_path))
}

} // verus!
