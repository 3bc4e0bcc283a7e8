//! A user record of the directory, and what is derived from it.

use crate::text::{chars_of, contains_in, has_substring, lacks_char, lemma_lacking_first_char};
use vstd::prelude::*;

verus! {

/// One user as the directory gave it. Only `id` and `display_name` are
/// always there.
#[derive(Clone, Debug, PartialEq, Eq)]
pub struct User {
    pub id: String,
    pub display_name: String,
    pub job_title: Option<String>,
    pub department: Option<String>,
    pub mail: Option<String>,
    pub office_location: Option<String>,
}

/// A user record as plain text values.
pub struct UserView {
    pub id: Seq<char>,
    pub display_name: Seq<char>,
    pub job_title: Option<Seq<char>>,
    pub department: Option<Seq<char>>,
    pub mail: Option<Seq<char>>,
    pub office_location: Option<Seq<char>>,
}

impl View for User {
    type V = UserView;

    open spec fn view(&self) -> UserView {
        UserView {
            id: self.id@,
            display_name: self.display_name@,
            job_title: self.job_title.deep_view(),
            department: self.department.deep_view(),
            mail: self.mail.deep_view(),
            office_location: self.office_location.deep_view(),
        }
    }
}

impl DeepView for User {
    type V = UserView;

    open spec fn deep_view(&self) -> UserView {
        self@
    }
}

/// The text that stands for a field the directory left out.
pub open spec fn unknown() -> Seq<char> {
    "unknown"@
}

/// A field's text, or the stand-in where the field is absent.
pub open spec fn or_unknown(field: Option<Seq<char>>) -> Seq<char> {
    match field {
        Some(text) => text,
        None => unknown(),
    }
}

/// A job title that marks its holder as a vendor. The match is
/// case-sensitive.
pub open spec fn is_vendor_title(title: Seq<char>) -> bool {
    ||| has_substring(title, "CONSULT"@)
    ||| has_substring(title, "OUTSOURCE"@)
    ||| has_substring(title, "Outsource"@)
}

/// An office location that lies off-shore.
pub open spec fn is_off_shore_location(location: Seq<char>) -> bool {
    ||| has_substring(location, "Off-Shore"@)
    ||| has_substring(location, "Off-Site"@)
}

impl UserView {
    /// The mail address as it is shown.
    pub open spec fn email(self) -> Seq<char> {
        or_unknown(self.mail)
    }

    /// The department as it is shown.
    pub open spec fn department_text(self) -> Seq<char> {
        or_unknown(self.department)
    }

    /// The job title as it is shown and classified.
    pub open spec fn job_title_text(self) -> Seq<char> {
        or_unknown(self.job_title)
    }

    /// The office location as it is shown and classified.
    pub open spec fn office_location_text(self) -> Seq<char> {
        or_unknown(self.office_location)
    }

    /// "Vendor" or "Employee", by the job title.
    pub open spec fn employment_type(self) -> Seq<char> {
        if is_vendor_title(self.job_title_text()) {
            "Vendor"@
        } else {
            "Employee"@
        }
    }

    /// "Off-Shore" or "On-Site", by the office location.
    pub open spec fn location_category(self) -> Seq<char> {
        if is_off_shore_location(self.office_location_text()) {
            "Off-Shore"@
        } else {
            "On-Site"@
        }
    }
}

/// The stand-in text matches no keyword: it marks nobody as a vendor and no
/// place as off-shore.
pub proof fn lemma_unknown_matches_no_keyword()
    ensures
        !is_vendor_title(unknown()),
        !is_off_shore_location(unknown()),
{
    reveal_strlit("unknown");
    reveal_strlit("CONSULT");
    reveal_strlit("OUTSOURCE");
    reveal_strlit("Outsource");
    reveal_strlit("Off-Shore");
    reveal_strlit("Off-Site");
    assert(unknown() =~= seq!['u', 'n', 'k', 'n', 'o', 'w', 'n']);
    assert(lacks_char(unknown(), 'C'));
    assert(lacks_char(unknown(), 'O'));
    lemma_lacking_first_char(unknown(), "CONSULT"@);
    lemma_lacking_first_char(unknown(), "OUTSOURCE"@);
    lemma_lacking_first_char(unknown(), "Outsource"@);
    lemma_lacking_first_char(unknown(), "Off-Shore"@);
    lemma_lacking_first_char(unknown(), "Off-Site"@);
}

/// An absent field reads as the stand-in text, and the stand-in never
/// decides a category: without a job title a user is an employee, without an
/// office location on-site.
pub proof fn law_absent_fields(user: UserView)
    ensures
        user.mail is None ==> user.email() == unknown(),
        user.department is None ==> user.department_text() == unknown(),
        user.job_title is None ==> user.job_title_text() == unknown(),
        user.office_location is None ==> user.office_location_text() == unknown(),
        user.job_title is None ==> user.employment_type() == "Employee"@,
        user.office_location is None ==> user.location_category() == "On-Site"@,
{
    lemma_unknown_matches_no_keyword();
}

fn text_or_unknown(field: &Option<String>) -> (r: &str)
    ensures
        r@ == or_unknown(field.deep_view()),
{
    match field {
        Some(text) => text.as_str(),
        None => "unknown",
    }
}

impl User {
    /// The mail address, or "unknown".
    pub fn get_email(&self) -> (r: &str)
        ensures
            r@ == self@.email(),
    {
        text_or_unknown(&self.mail)
    }

    /// The department, or "unknown".
    pub fn get_department(&self) -> (r: &str)
        ensures
            r@ == self@.department_text(),
    {
        text_or_unknown(&self.department)
    }

    /// The job title, or "unknown".
    pub fn get_job_title(&self) -> (r: &str)
        ensures
            r@ == self@.job_title_text(),
    {
        text_or_unknown(&self.job_title)
    }

    /// The office location, or "unknown".
    pub fn get_office_location(&self) -> (r: &str)
        ensures
            r@ == self@.office_location_text(),
    {
        text_or_unknown(&self.office_location)
    }

    /// The employment type and the location category, in this order.
    pub fn get_category(&self) -> (r: (&str, &str))
        ensures
            r.0@ == self@.employment_type(),
            r.1@ == self@.location_category(),
    {
        let job_title = chars_of(self.get_job_title());
        let office_location = chars_of(self.get_office_location());
        let employment_type = if contains_in(&job_title, "CONSULT") || contains_in(
            &job_title,
            "OUTSOURCE",
        ) || contains_in(&job_title, "Outsource") {
            "Vendor"
        } else {
            "Employee"
        };
        let location = if contains_in(&office_location, "Off-Shore") || contains_in(
            &office_location,
            "Off-Site",
        ) {
            "Off-Shore"
        } else {
            "On-Site"
        };
        (employment_type, location)
    }
}

} // verus!
