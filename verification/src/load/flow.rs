//! Reading a flow from YAML text.
use vstd::prelude::*;

use crate::error::Error;
use crate::text::owned;
use crate::value::Value;

verus! {

/// Reads flows from YAML text.
#[derive(Debug)]
pub struct YmlFlowParser {}

impl YmlFlowParser {
    pub fn new() -> (r: YmlFlowParser) {
        YmlFlowParser {}
    }

    /// Reads `txt` with `parse`, which gives the value the text holds or
    /// the message of why it holds none; a failure is an error with code
    /// `yaml`.
    pub fn parse_str<P: Fn(&str) -> Result<Value, String>>(&self, txt: &str, parse: &P) -> (r: Result<Value, Error>)
        requires
            forall|t: &str| parse.requires((t,)),
        ensures
            exists|o: Result<Value, String>|
                #[trigger] parse.ensures((txt,), o) && match o {
                    Ok(v) => r matches Ok(w) && w@ == v@,
                    Err(m) => r matches Err(e) && e.code_view() == "yaml"@ && e.message_view() == m@,
                },
    {
        proof {
            reveal_strlit("yaml");
        }
        let o = parse(txt);
        let ghost og = o;
        let res: Result<Value, Error> = match o {
            Ok(v) => Ok(v),
            Err(m) => Err(Error::new(owned("yaml"), m)),
        };
        assert(parse.ensures((txt,), og));
        res
    }
}

} // verus!
