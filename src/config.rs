//! The mail settings file: sender, sender's password and recipient, one
//! per line.

use vstd::prelude::*;
use crate::text::{split_lines, trimmed, trimmed_lines};

verus! {

/// Who sends the alerts, with what password, and to whom.
pub struct EmailSettings {
    pub from: String,
    pub password: String,
    pub to: String,
}

/// Reads the mail settings: exactly three lines, each trimmed, give sender,
/// password and recipient; any other number of lines leaves all three empty.
pub fn parse_email_settings(data: &str) -> (r: EmailSettings)
    ensures
        ({
            let lines = split_lines(data@);
            if lines.len() == 3 {
                &&& r.from@ == trimmed(lines[0])
                &&& r.password@ == trimmed(lines[1])
                &&& r.to@ == trimmed(lines[2])
            } else {
                &&& r.from@.len() == 0
                &&& r.password@.len() == 0
                &&& r.to@.len() == 0
            }
        }),
{
    let lines = trimmed_lines(data);
    let ghost split = split_lines(data@);
    assert(crate::notice::ids_of(lines@).len() == lines@.len());
    assert(split.map_values(|l: Seq<char>| trimmed(l)).len() == split.len());
    if lines.len() == 3 {
        assert(crate::notice::ids_of(lines@)[0] == lines@[0]@);
        assert(crate::notice::ids_of(lines@)[1] == lines@[1]@);
        assert(crate::notice::ids_of(lines@)[2] == lines@[2]@);
        assert(split.map_values(|l: Seq<char>| trimmed(l))[0] == trimmed(split[0]));
        assert(split.map_values(|l: Seq<char>| trimmed(l))[1] == trimmed(split[1]));
        assert(split.map_values(|l: Seq<char>| trimmed(l))[2] == trimmed(split[2]));
        EmailSettings {
            from: lines[0].clone(),
            password: lines[1].clone(),
            to: lines[2].clone(),
        }
    } else {
        EmailSettings { from: String::new(), password: String::new(), to: String::new() }
    }
}

} // verus!
