//! Handing files to other programs.

use vstd::prelude::*;
use vstd::string::StringExecFns;
use crate::files::{join, joined};
use crate::text::texts;

verus! {

/// Sending files somewhere.
#[derive(Clone, Copy, Debug)]
pub struct SendTo {}

/// The arguments with which the mail program is started to attach the files
/// `files` of the folder `from`: for each file in order, `--attach` and the
/// file's path.
pub open spec fn email_arguments(from: Seq<char>, files: Seq<Seq<char>>) -> Seq<Seq<char>>
    decreases files.len(),
{
    if files.len() == 0 {
        Seq::empty()
    } else {
        email_arguments(from, files.drop_last()).push("--attach"@).push(
            joined(from, files.last()),
        )
    }
}

impl SendTo {
    /// Lists the arguments for the mail program.
    pub fn email(from: &str, files: &[String]) -> (arguments: Vec<String>)
        ensures
            texts(arguments@) == email_arguments(from@, texts(files@)),
    {
        let mut arguments: Vec<String> = Vec::new();
        let mut i: usize = 0;
        assert(texts(files@).take(0) =~= Seq::<Seq<char>>::empty());
        assert(texts(arguments@) =~= Seq::<Seq<char>>::empty());
        while i < files.len()
            invariant
                i <= files.len(),
                texts(arguments@) == email_arguments(from@, texts(files@).take(i as int)),
            decreases files.len() - i,
        {
            let flag = String::from_str("--attach");
            let path = join(from, files[i].as_str());
            proof {
                let upto = texts(files@).take(i + 1);
                assert(upto.drop_last() =~= texts(files@).take(i as int));
                assert(upto.last() == files@[i as int]@);
                assert(texts(arguments@.push(flag).push(path)) =~= texts(arguments@).push(
                    flag@,
                ).push(path@));
            }
            arguments.push(flag);
            arguments.push(path);
            i += 1;
        }
        assert(texts(files@).take(i as int) =~= texts(files@));
        arguments
    }
}

} // verus!
