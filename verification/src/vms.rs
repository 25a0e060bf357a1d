//! The page of virtual machines: reading the listing that the hypervisor's
//! command-line tool prints.
//!
//! The listing has two lines of heading, then one line for each machine: its
//! number, its name and its state, in columns that two or more blanks part.

use crate::error::Error;
use crate::outside::{
    debug_quote, debug_quoted, hash_index, hash_text, pattern_split, split_by_pattern,
};
use crate::seqs::{first_some, lemma_first_some_at, lemma_first_some_none, views};
use crate::text::{decimal, lines, lines_of, push_decimal, trim, trimmed};
use std::collections::hash_map::DefaultHasher;
use std::hash::Hasher;
use vstd::prelude::*;
use vstd::string::*;

verus! {

/// What a row of a table must offer: a text that tells it from the other
/// rows.
pub trait TableRow: Clone {
    fn id(&self) -> String;
}

/// A virtual machine, as one line of the listing shows it. `idx` counts the
/// lines after the heading, from zero.
#[derive(Clone, Debug)]
pub struct Vm {
    pub idx: usize,
    pub name: String,
    pub state: String,
}

/// The virtual machines of the listing, in its order.
#[derive(Clone, Debug)]
pub struct Vms {
    pub vms: Vec<Vm>,
}

/// The view of a `Vm`.
pub struct VmView {
    pub idx: usize,
    pub name: Seq<char>,
    pub state: Seq<char>,
}

impl View for Vm {
    type V = VmView;

    open spec fn view(&self) -> VmView {
        VmView { idx: self.idx, name: self.name@, state: self.state@ }
    }
}

impl View for Vms {
    type V = Seq<VmView>;

    open spec fn view(&self) -> Seq<VmView> {
        views(self.vms@)
    }
}

/// The regular expression that parts the columns: two blanks or more.
pub open spec fn column_gap() -> Seq<char> {
    "\\s{2,}"@
}

/// The machine that the columns of a line show: there must be three, and
/// the second and third are its name and state.
pub open spec fn row_of(idx: usize, parts: Seq<Seq<char>>) -> Option<VmView> {
    if parts.len() == 3 {
        Some(VmView { idx, name: trimmed(parts[1]), state: trimmed(parts[2]) })
    } else {
        None
    }
}

/// The machine that a line shows: the line without the blanks around it,
/// parted into columns. A line whose columns cannot be had shows none.
pub open spec fn line_row(idx: usize, line: Seq<char>) -> Option<VmView> {
    match pattern_split(column_gap(), trimmed(line)) {
        Some(parts) => row_of(idx, parts),
        None => None,
    }
}

/// A line of blanks, or an empty one.
pub open spec fn is_blank(line: Seq<char>) -> bool {
    trimmed(line).len() == 0
}

/// For each line, the message it is refused with: a line that is not blank
/// and shows no machine.
pub open spec fn line_offences(data: Seq<Seq<char>>) -> Seq<Option<Seq<char>>> {
    Seq::new(
        data.len(),
        |i: int|
            if !is_blank(data[i]) && line_row(i as usize, data[i]) is None {
                Some("Could not parse line "@ + debug_quoted(data[i]))
            } else {
                None
            },
    )
}

/// The machines that the lines show, in the order of the lines. Blank lines
/// show none, yet count for `idx`.
pub open spec fn listed(data: Seq<Seq<char>>) -> Seq<VmView>
    decreases data.len(),
{
    if data.len() == 0 {
        Seq::empty()
    } else {
        let idx = (data.len() - 1) as usize;
        let before = listed(data.drop_last());
        if is_blank(data.last()) {
            before
        } else {
            match line_row(idx, data.last()) {
                Some(vm) => before.push(vm),
                None => before,
            }
        }
    }
}

/// The lines of a listing after its two lines of heading.
pub open spec fn data_lines(text: Seq<char>) -> Seq<Seq<char>> {
    if lines_of(text).len() <= 2 {
        Seq::empty()
    } else {
        lines_of(text).skip(2)
    }
}

/// The machines of a listing, or the message for its first line that cannot
/// be read.
pub open spec fn inventory_of(text: Seq<char>) -> Result<Seq<VmView>, Seq<char>> {
    match first_some(line_offences(data_lines(text)), 0) {
        Some(i) => Err(line_offences(data_lines(text))[i]->0),
        None => Ok(listed(data_lines(text))),
    }
}

impl Vm {
    /// The machine that the columns of a line show.
    pub fn from_parts(idx: usize, parts: &Vec<String>) -> (r: Option<Vm>)
        ensures
            match r {
                Some(vm) => row_of(idx, parts.deep_view()) == Some(vm@),
                None => row_of(idx, parts.deep_view()) is None,
            },
    {
        if parts.len() != 3 {
            return None;
        }
        let name = String::from_str(trim(parts[1].as_str()));
        let state = String::from_str(trim(parts[2].as_str()));
        proof {
            assert(parts.deep_view()[1] == parts@[1]@);
            assert(parts.deep_view()[2] == parts@[2]@);
        }
        Some(Vm { idx, name, state })
    }

    /// The machine that a line shows.
    pub fn from_line(idx: usize, line: &str) -> (r: Option<Vm>)
        ensures
            match r {
                Some(vm) => line_row(idx, line@) == Some(vm@),
                None => line_row(idx, line@) is None,
            },
    {
        match split_by_pattern("\\s{2,}", trim(line)) {
            Some(parts) => Vm::from_parts(idx, &parts),
            None => None,
        }
    }
}

/// The text of a row's number: its decimal notation.
pub fn id_text(hash: u64) -> (r: String)
    ensures
        r@ == decimal(hash as nat),
{
    let mut out = String::new();
    push_decimal(&mut out, hash as u128);
    assert(out@ =~= decimal(hash as nat));
    out
}

impl TableRow for Vm {
    /// A number in decimal notation, which the standard hasher computes
    /// from the name, the state and the index of the machine.
    fn id(&self) -> (r: String)
        ensures
            exists|hash: u64| r@ == decimal(hash as nat),
    {
        let mut hasher = DefaultHasher::new();
        hash_text(&mut hasher, self.name.as_str());
        hash_text(&mut hasher, self.state.as_str());
        hash_index(&mut hasher, self.idx);
        id_text(hasher.finish())
    }
}

impl Vms {
    /// Reads a listing.
    pub fn parse_str(str: &str) -> (r: Result<Vms, Error>)
        ensures
            match r {
                Ok(vms) => inventory_of(str@) == Ok::<Seq<VmView>, Seq<char>>(vms@),
                Err(e) => e matches Error::String(message) && inventory_of(str@) == Err::<
                    Seq<VmView>,
                    Seq<char>,
                >(message@),
            },
    {
        let all = lines(str);
        let ghost data = data_lines(str@);
        let mut result = Vms { vms: Vec::new() };
        if all.len() <= 2 {
            proof {
                lemma_first_some_none(line_offences(data), 0);
                assert(result@ =~= listed(data));
            }
            return Ok(result);
        }
        let n: usize = all.len() - 2;
        let mut idx: usize = 0;
        assert(result@ =~= listed(data.take(0)));
        while idx < n
            invariant
                0 <= idx <= n,
                n == all@.len() - 2,
                all.deep_view() == lines_of(str@),
                data == data_lines(str@),
                data.len() == n,
                forall|j: int| 0 <= j < idx ==> (#[trigger] line_offences(data)[j]) is None,
                result@ == listed(data.take(idx as int)),
            decreases n - idx,
        {
            let line = all[idx + 2].as_str();
            proof {
                assert(all.deep_view()[idx + 2] == all@[idx + 2]@);
                assert(data[idx as int] == line@);
                assert(data.take(idx + 1).drop_last() =~= data.take(idx as int));
                assert(data.take(idx + 1).last() == line@);
            }
            if trim(line).unicode_len() != 0 {
                match Vm::from_line(idx, line) {
                    Some(vm) => {
                        let ghost before = result.vms@;
                        result.vms.push(vm);
                        proof {
                            assert(views(result.vms@) =~= views(before).push(vm@));
                        }
                    },
                    None => {
                        let mut message = String::new();
                        message.append("Could not parse line ");
                        message.append(debug_quote(line).as_str());
                        proof {
                            assert(message@ =~= "Could not parse line "@ + debug_quoted(line@));
                            lemma_first_some_at(line_offences(data), 0, idx as int);
                        }
                        return Err(Error::String(message));
                    },
                }
            }
            idx = idx + 1;
        }
        proof {
            assert(data.take(n as int) =~= data);
            lemma_first_some_none(line_offences(data), 0);
        }
        Ok(result)
    }

    /// Replaces the machines by those of the listing `output`. Where the
    /// listing cannot be read, the machines stay as they are.
    pub fn load(&mut self, output: &str) -> (r: Result<(), Error>)
        ensures
            match r {
                Ok(()) => inventory_of(output@) == Ok::<Seq<VmView>, Seq<char>>(final(self)@),
                Err(e) => e matches Error::String(message) && inventory_of(output@) == Err::<
                    Seq<VmView>,
                    Seq<char>,
                >(message@) && *final(self) == *old(self),
            },
    {
        match Vms::parse_str(output) {
            Ok(vms) => {
                *self = vms;
                Ok(())
            },
            Err(e) => Err(e),
        }
    }
}

} // verus!
