//! Turns the records of a CSV file into command entries. The file's first
//! record names the two columns, `display_name` then `command`; every other
//! record is one entry, in file order.
use crate::config::CommandOption;
use crate::menu_main::same_text;
use vstd::prelude::*;

verus! {

/// Why a CSV file gave no entries.
#[derive(Clone, Copy, Debug, PartialEq, Eq)]
pub enum ImportError {
    /// The header is not `display_name,command`.
    BadHeader,
    /// The data record at this index (0-based, header not counted) does not
    /// have exactly two fields.
    BadRecord(usize),
}

pub open spec fn header_ok(header: Seq<String>) -> bool {
    &&& header.len() == 2
    &&& header[0]@ == "display_name"@
    &&& header[1]@ == "command"@
}

pub open spec fn record_ok(record: Vec<String>) -> bool {
    record@.len() == 2
}

/// The entry that a well-formed record gives.
pub open spec fn record_entry(record: Vec<String>, entry: CommandOption) -> bool {
    &&& entry.display_name@ == record@[0]@
    &&& entry.command@ == record@[1]@
}

/// Reads the entries of a CSV file from its header and data records. Any
/// malformed record makes the whole import fail: there is no partial result.
pub fn commands_from_records(
    header: &Vec<String>,
    records: &Vec<Vec<String>>,
) -> (r: Result<Vec<CommandOption>, ImportError>)
    ensures
        !header_ok(header@) ==> r == Err::<Vec<CommandOption>, ImportError>(ImportError::BadHeader),
        header_ok(header@) ==> match r {
            Ok(entries) => {
                &&& forall|i: int| 0 <= i < records@.len() ==> record_ok(#[trigger] records@[i])
                &&& entries@.len() == records@.len()
                &&& forall|i: int|
                    0 <= i < records@.len() ==> record_entry(#[trigger] records@[i], entries@[i])
            },
            Err(ImportError::BadRecord(k)) => {
                &&& k < records@.len()
                &&& !record_ok(records@[k as int])
                &&& forall|i: int| 0 <= i < k ==> record_ok(#[trigger] records@[i])
            },
            Err(ImportError::BadHeader) => false,
        },
{
    proof {
        reveal_strlit("display_name");
        reveal_strlit("command");
    }
    if header.len() != 2 || !same_text(header[0].as_str(), "display_name") || !same_text(
        header[1].as_str(),
        "command",
    ) {
        return Err(ImportError::BadHeader);
    }
    let mut entries: Vec<CommandOption> = Vec::new();
    let mut i: usize = 0;
    while i < records.len()
        invariant
            header_ok(header@),
            i <= records@.len(),
            entries@.len() == i,
            forall|j: int| 0 <= j < i ==> record_ok(#[trigger] records@[j]),
            forall|j: int| 0 <= j < i ==> record_entry(#[trigger] records@[j], entries@[j]),
        decreases records@.len() - i,
    {
        let record = &records[i];
        if record.len() != 2 {
            return Err(ImportError::BadRecord(i));
        }
        entries.push(
            CommandOption { display_name: record[0].clone(), command: record[1].clone() },
        );
        i = i + 1;
    }
    Ok(entries)
}

} // verus!
