//! Text rendering of projections: the exact lines the presentation shell
//! prints for one record or for a record list.

use crate::dtos::{ClientDto, DtoList};
use crate::entities::ClientView;
use vstd::prelude::*;
use vstd::string::StringExecFns;

verus! {

/// The lowercase hexadecimal digit for a value below sixteen.
pub open spec fn hex_char(n: u128) -> char
    recommends
        n < 16,
{
    if n == 0 {
        '0'
    } else if n == 1 {
        '1'
    } else if n == 2 {
        '2'
    } else if n == 3 {
        '3'
    } else if n == 4 {
        '4'
    } else if n == 5 {
        '5'
    } else if n == 6 {
        '6'
    } else if n == 7 {
        '7'
    } else if n == 8 {
        '8'
    } else if n == 9 {
        '9'
    } else if n == 10 {
        'a'
    } else if n == 11 {
        'b'
    } else if n == 12 {
        'c'
    } else if n == 13 {
        'd'
    } else if n == 14 {
        'e'
    } else {
        'f'
    }
}

/// The canonical hyphenated text of a 128-bit identifier: its thirty-two
/// lowercase hexadecimal digits, most significant first, with a hyphen
/// after the eighth, twelfth, sixteenth and twentieth digit.
pub open spec fn hyphenated(id: u128) -> Seq<char> {
    Seq::new(
        36,
        |j: int|
            if j == 8 || j == 13 || j == 18 || j == 23 {
                '-'
            } else {
                let digit = if j < 8 {
                    j
                } else if j < 13 {
                    j - 1
                } else if j < 18 {
                    j - 2
                } else if j < 23 {
                    j - 3
                } else {
                    j - 4
                };
                hex_char((id >> (((31 - digit) * 4) as u128)) & 0xf)
            },
    )
}

/// Relies on `uuid::Uuid::from_u128` and the hyphenated formatter of the
/// `uuid` crate: the canonical lowercase hyphenated form of the identifier,
/// thirty-two hexadecimal digits in groups of 8-4-4-4-12, most significant
/// digit first.
#[verifier::external_body]
fn hyphenated_text(id: u128) -> (text: String)
    ensures
        text@ == hyphenated(id),
{
    uuid::Uuid::from_u128(id).hyphenated().to_string()
}

/// The one-record line: the identifier in hyphenated form, the name, and
/// the location.
pub open spec fn client_line(client: ClientView) -> Seq<char> {
    "Client #"@ + hyphenated(client.id) + ": "@ + client.name + ", from "@ + client.location
}

/// One line per record, each followed by a line break, in order.
pub open spec fn client_lines(clients: Seq<ClientView>) -> Seq<char>
    decreases clients.len(),
{
    if clients.len() == 0 {
        Seq::empty()
    } else {
        client_lines(clients.drop_last()) + client_line(clients.last()) + "\n"@
    }
}

/// The full listing: a fixed notice for an empty list, otherwise a heading,
/// a separator, and one line per record.
pub open spec fn client_list_text(clients: Seq<ClientView>) -> Seq<char> {
    if clients.len() == 0 {
        "No clients\n"@
    } else {
        "Client list\n"@ + "----------------------------------------\n\n"@ + client_lines(clients)
    }
}

impl ClientDto {
    /// The text the shell prints for this record.
    pub fn render(&self) -> (text: String)
        ensures
            text@ == client_line(self@),
    {
        let mut text = "Client #".to_owned();
        let id_text = hyphenated_text(self.id());
        text.append(id_text.as_str());
        text.append(": ");
        text.append(self.name());
        text.append(", from ");
        text.append(self.location());
        proof {
            assert(text@ =~= client_line(self@));
        }
        text
    }
}

impl DtoList<ClientDto> {
    /// The text the shell prints for this list of records.
    pub fn render(&self) -> (text: String)
        ensures
            text@ == client_list_text(self@.map_values(|dto: ClientDto| dto@)),
    {
        let ghost views = self@.map_values(|dto: ClientDto| dto@);
        if self.is_empty() {
            let text = "No clients\n".to_owned();
            return text;
        }
        let mut text = "Client list\n".to_owned();
        text.append("----------------------------------------\n\n");
        let ghost heading = text@;
        let mut i: usize = 0;
        while i < self.len()
            invariant
                i <= self@.len(),
                views == self@.map_values(|dto: ClientDto| dto@),
                views.len() == self@.len(),
                text@ == heading + client_lines(views.take(i as int)),
            decreases self@.len() - i,
        {
            let line = self.get(i).render();
            text.append(line.as_str());
            text.append("\n");
            proof {
                assert(views.take(i + 1).drop_last() =~= views.take(i as int));
                assert(views.take(i + 1).last() == views[i as int]);
                assert(text@ =~= heading + client_lines(views.take(i + 1)));
            }
            i = i + 1;
        }
        proof {
            assert(views.take(views.len() as int) =~= views);
            assert(views.len() > 0);
        }
        text
    }
}

} // verus!
