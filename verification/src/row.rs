//! The output rows: a user's fields and categories, joined by ", ".
//!
//! Fields are written as they are. A field that holds the delimiter is not
//! quoted or escaped, so such a row does not split back into its fields.

use crate::text::{
    has_substring, join, join_seq, lacks_char, law_split_undoes_join, lemma_lacking_first_char, split,
    split_seq,
};
use crate::user::{law_absent_fields, unknown, User, UserView};
use vstd::prelude::*;

verus! {

/// What stands between two fields of a row.
pub open spec fn delimiter() -> Seq<char> {
    ", "@
}

/// What stands in both manager columns of the root's row.
pub open spec fn no_manager() -> Seq<char> {
    "none"@
}

/// The names of the ten columns, in order.
pub open spec fn column_names() -> Seq<Seq<char>> {
    seq![
        "id"@,
        "display_name"@,
        "mail"@,
        "job_title"@,
        "department"@,
        "office_location"@,
        "employment_type"@,
        "location"@,
        "manager_id"@,
        "manager_display_name"@,
    ]
}

/// The header line.
pub open spec fn header_text() -> Seq<char> {
    join_seq(column_names(), delimiter())
}

impl UserView {
    /// The eight values of a user's own columns, in order.
    pub open spec fn fields(self) -> Seq<Seq<char>> {
        seq![
            self.id,
            self.display_name,
            self.email(),
            self.job_title_text(),
            self.department_text(),
            self.office_location_text(),
            self.employment_type(),
            self.location_category(),
        ]
    }

    /// The user's own columns as one text.
    pub open spec fn row(self) -> Seq<char> {
        join_seq(self.fields(), delimiter())
    }

    /// The ten values of the row of a user under a manager.
    pub open spec fn fields_under(self, manager_id: Seq<char>, manager_name: Seq<char>) -> Seq<
        Seq<char>,
    > {
        self.fields().push(manager_id).push(manager_name)
    }

    /// The row of a user under a manager.
    pub open spec fn row_under(self, manager_id: Seq<char>, manager_name: Seq<char>) -> Seq<
        char,
    > {
        join_seq(self.fields_under(manager_id, manager_name), delimiter())
    }

    /// The row of the user the walk starts from, who has no manager.
    pub open spec fn root_row(self) -> Seq<char> {
        self.row_under(no_manager(), no_manager())
    }

    /// None of the values that the directory gave holds the delimiter.
    pub open spec fn delimiter_free(self) -> bool {
        &&& !has_substring(self.id, delimiter())
        &&& !has_substring(self.display_name, delimiter())
        &&& self.mail matches Some(text) ==> !has_substring(text, delimiter())
        &&& self.job_title matches Some(text) ==> !has_substring(text, delimiter())
        &&& self.department matches Some(text) ==> !has_substring(text, delimiter())
        &&& self.office_location matches Some(text) ==> !has_substring(text, delimiter())
    }
}

/// In a row, each value that the directory left out reads "unknown", and
/// such a value decides no category: the row of a user without job title
/// says "Employee", that of a user without office location "On-Site".
pub proof fn law_row_of_absent_fields(user: UserView)
    ensures
        user.mail is None ==> user.fields()[2] == unknown(),
        user.job_title is None ==> user.fields()[3] == unknown() && user.fields()[6]
            == "Employee"@,
        user.department is None ==> user.fields()[4] == unknown(),
        user.office_location is None ==> user.fields()[5] == unknown() && user.fields()[7]
            == "On-Site"@,
{
    law_absent_fields(user);
}

/// The delimiter is a comma and a space.
pub proof fn lemma_delimiter()
    ensures
        delimiter() =~= seq![',', ' '],
{
    reveal_strlit(", ");
}

/// The texts that the library itself puts into a row hold no delimiter.
pub proof fn lemma_own_texts_delimiter_free(user: UserView)
    ensures
        !has_substring(unknown(), delimiter()),
        !has_substring(no_manager(), delimiter()),
        !has_substring(user.employment_type(), delimiter()),
        !has_substring(user.location_category(), delimiter()),
{
    lemma_delimiter();
    reveal_strlit("unknown");
    reveal_strlit("none");
    reveal_strlit("Vendor");
    reveal_strlit("Employee");
    reveal_strlit("Off-Shore");
    reveal_strlit("On-Site");
    assert(lacks_char("unknown"@, ',')) by {
        assert("unknown"@ =~= seq!['u', 'n', 'k', 'n', 'o', 'w', 'n']);
    }
    assert(lacks_char("none"@, ',')) by {
        assert("none"@ =~= seq!['n', 'o', 'n', 'e']);
    }
    assert(lacks_char("Vendor"@, ',')) by {
        assert("Vendor"@ =~= seq!['V', 'e', 'n', 'd', 'o', 'r']);
    }
    assert(lacks_char("Employee"@, ',')) by {
        assert("Employee"@ =~= seq!['E', 'm', 'p', 'l', 'o', 'y', 'e', 'e']);
    }
    assert(lacks_char("Off-Shore"@, ',')) by {
        assert("Off-Shore"@ =~= seq!['O', 'f', 'f', '-', 'S', 'h', 'o', 'r', 'e']);
    }
    assert(lacks_char("On-Site"@, ',')) by {
        assert("On-Site"@ =~= seq!['O', 'n', '-', 'S', 'i', 't', 'e']);
    }
    lemma_lacking_first_char("unknown"@, delimiter());
    lemma_lacking_first_char("none"@, delimiter());
    lemma_lacking_first_char("Vendor"@, delimiter());
    lemma_lacking_first_char("Employee"@, delimiter());
    lemma_lacking_first_char("Off-Shore"@, delimiter());
    lemma_lacking_first_char("On-Site"@, delimiter());
}

/// A user's row splits back into its eight values, each as it was written,
/// where none of the values that the directory gave holds the delimiter.
pub proof fn law_row_round_trip(user: UserView)
    requires
        user.delimiter_free(),
    ensures
        split_seq(user.row(), delimiter()) == user.fields(),
        user.fields().len() == 8,
{
    lemma_delimiter();
    lemma_own_texts_delimiter_free(user);
    law_split_undoes_join(user.fields(), delimiter());
}

/// The row of a user under a manager splits back into its ten values, where
/// neither the user's values nor the manager's hold the delimiter.
pub proof fn law_row_under_round_trip(
    user: UserView,
    manager_id: Seq<char>,
    manager_name: Seq<char>,
)
    requires
        user.delimiter_free(),
        !has_substring(manager_id, delimiter()),
        !has_substring(manager_name, delimiter()),
    ensures
        split_seq(user.row_under(manager_id, manager_name), delimiter()) == user.fields_under(
            manager_id,
            manager_name,
        ),
        user.fields_under(manager_id, manager_name).len() == 10,
{
    lemma_delimiter();
    lemma_own_texts_delimiter_free(user);
    law_split_undoes_join(user.fields_under(manager_id, manager_name), delimiter());
}

/// The root's row splits back into its ten values, the last two being the
/// text for "no manager".
pub proof fn law_root_row_round_trip(user: UserView)
    requires
        user.delimiter_free(),
    ensures
        split_seq(user.root_row(), delimiter()) == user.fields_under(no_manager(), no_manager()),
{
    lemma_own_texts_delimiter_free(user);
    law_row_under_round_trip(user, no_manager(), no_manager());
}

/// The header line: the ten column names.
pub fn header_row() -> (r: String)
    ensures
        r@ == header_text(),
{
    let names: Vec<&str> = vec![
        "id",
        "display_name",
        "mail",
        "job_title",
        "department",
        "office_location",
        "employment_type",
        "location",
        "manager_id",
        "manager_display_name",
    ];
    proof {
        assert(names.deep_view() =~= column_names());
    }
    join(&names, ", ")
}

impl User {
    /// The user's own eight columns as one line of text.
    pub fn to_row(&self) -> (r: String)
        ensures
            r@ == self@.row(),
    {
        let (employment_type, location) = self.get_category();
        let parts: Vec<&str> = vec![
            self.id.as_str(),
            self.display_name.as_str(),
            self.get_email(),
            self.get_job_title(),
            self.get_department(),
            self.get_office_location(),
            employment_type,
            location,
        ];
        proof {
            assert(parts.deep_view() =~= self@.fields());
        }
        join(&parts, ", ")
    }

    /// The line for this user under the manager with the given id and name.
    pub fn to_row_under(&self, manager_id: &str, manager_name: &str) -> (r: String)
        ensures
            r@ == self@.row_under(manager_id@, manager_name@),
    {
        let (employment_type, location) = self.get_category();
        let parts: Vec<&str> = vec![
            self.id.as_str(),
            self.display_name.as_str(),
            self.get_email(),
            self.get_job_title(),
            self.get_department(),
            self.get_office_location(),
            employment_type,
            location,
            manager_id,
            manager_name,
        ];
        proof {
            assert(parts.deep_view() =~= self@.fields_under(manager_id@, manager_name@));
        }
        join(&parts, ", ")
    }

    /// The line for the user the walk starts from.
    pub fn to_root_row(&self) -> (r: String)
        ensures
            r@ == self@.root_row(),
    {
        self.to_row_under("none", "none")
    }
}

/// Cuts a row into its values at each delimiter.
pub fn parse_row(row: &str) -> (values: Vec<String>)
    ensures
        values.deep_view() == split_seq(row@, delimiter()),
{
    split(row, ", ")
}

} // verus!
