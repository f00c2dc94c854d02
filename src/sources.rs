use vstd::prelude::*;

use crate::level::{weight_of, LogLevel};
use crate::record::{formatted, plain_text, LogRecord};

verus! {

/// What is printed for one input line: for a line that did not parse, the
/// line, a space, the error and a line break; for a record below the
/// threshold, nothing; for any other record, its formatted text.
pub fn process_line(line: &str, parsed: Result<LogRecord, String>, threshold: LogLevel, color: bool) -> (r:
    String)
    ensures
        match parsed {
            Err(e) => r@ == line@ + seq![' '] + e@ + seq!['\n'],
            Ok(rec) => if weight_of(rec.level) >= weight_of(threshold) {
                formatted(rec, color, r@) && (!color ==> r@ == plain_text(rec))
            } else {
                r@ == Seq::<char>::empty()
            },
        },
{
    match parsed {
        Ok(rec) => {
            if rec.level.at_least(threshold) {
                rec.format(color)
            } else {
                String::new()
            }
        },
        Err(e) => {
            let mut r = line.to_owned();
            r.append(" ");
            r.append(e.as_str());
            r.append("\n");
            proof {
                reveal_strlit(" ");
                reveal_strlit("\n");
                assert(r@ =~= line@ + seq![' '] + e@ + seq!['\n']);
            }
            r
        },
    }
}

} // verus!
