//! Composing a new entry: the file name scheme `DD-HHMMSS-slug.md` and the
//! rendered note template.
use vstd::prelude::*;
use vstd::string::StrSliceExecFns;
use vstd::string::StringExecFns;
use crate::dates::CalendarDate;
use crate::errors::UserError;
use crate::slug::{slug_of, sanitize_title};
use crate::text::{pad2, pad2_str, dec_int, i32_dec, has_suffix, str_has_suffix};

verus! {

/// Characters of an entry file name: zero-padded day, a dash, the packed
/// zero-padded time, a dash, the slug, and the `.md` extension.
pub open spec fn entry_filename_chars(
    day: nat,
    hour: nat,
    minute: nat,
    second: nat,
    slug: Seq<char>,
) -> Seq<char> {
    pad2(day) + "-"@ + pad2(hour) + pad2(minute) + pad2(second) + "-"@ + slug + ".md"@
}

/// The file name of an entry created at the given time with the given slug.
pub fn entry_filename(day: u32, hour: u32, minute: u32, second: u32, slug: &str) -> (r: String)
    ensures
        r@ == entry_filename_chars(day as nat, hour as nat, minute as nat, second as nat, slug@),
{
    let mut r = pad2_str(day);
    r.append("-");
    r.append(pad2_str(hour).as_str());
    r.append(pad2_str(minute).as_str());
    r.append(pad2_str(second).as_str());
    r.append("-");
    r.append(slug);
    r.append(".md");
    proof {
        assert(r@ =~= entry_filename_chars(
            day as nat,
            hour as nat,
            minute as nat,
            second as nat,
            slug@,
        ));
    }
    r
}

/// Characters of an entry's initial content: a heading from the title, a
/// `Date: DD-MM-YYYY` line, a blank line, the note, and a final newline.
pub open spec fn rendered_entry_chars(
    title: Seq<char>,
    day: nat,
    month: nat,
    year: int,
    note: Seq<char>,
) -> Seq<char> {
    "# "@ + title + "\n\nDate: "@ + pad2(day) + "-"@ + pad2(month) + "-"@ + dec_int(year)
        + "\n\n"@ + note + "\n"@
}

/// The rendered template for a new entry.
pub fn render_entry(title: &str, day: u32, month: u32, year: i32, note: &str) -> (r: String)
    ensures
        r@ == rendered_entry_chars(title@, day as nat, month as nat, year as int, note@),
{
    let mut r = "# ".to_owned();
    r.append(title);
    r.append("\n\nDate: ");
    r.append(pad2_str(day).as_str());
    r.append("-");
    r.append(pad2_str(month).as_str());
    r.append("-");
    r.append(i32_dec(year).as_str());
    r.append("\n\n");
    r.append(note);
    r.append("\n");
    proof {
        assert(r@ =~= rendered_entry_chars(title@, day as nat, month as nat, year as int, note@));
    }
    r
}

/// The file name and content of a new entry, ready to be written.
pub struct EntryPlan {
    pub filename: String,
    pub content: String,
}

/// Builds the file name and content for a new entry titled `title` (which
/// must end in `.md`) at time `now`. The slug and the heading use the title
/// with that extension removed. Touches no filesystem state: the caller
/// places `filename` under the resolved target directory, refusing to
/// overwrite an existing file.
pub fn prepare_entry(title: &str, note: &str, now: &CalendarDate) -> (r: Result<
    EntryPlan,
    UserError,
>)
    ensures
        r is Ok <==> has_suffix(title@, ".md"@),
        r is Err ==> r->Err_0 is InvalidTitle,
        r is Ok ==> r->Ok_0.filename@ == entry_filename_chars(
            now.day as nat,
            now.hour as nat,
            now.minute as nat,
            now.second as nat,
            slug_of(title@.take(title@.len() - 3)),
        ),
        r is Ok ==> r->Ok_0.content@ == rendered_entry_chars(
            title@.take(title@.len() - 3),
            now.day as nat,
            now.month as nat,
            now.year as int,
            note@,
        ),
{
    if !str_has_suffix(title, ".md") {
        return Err(UserError::InvalidTitle);
    }
    proof {
        reveal_strlit(".md");
    }
    let stem = title.substring_char(0, title.unicode_len() - 3);
    proof {
        assert(stem@ =~= title@.take(title@.len() - 3));
    }
    let slug = sanitize_title(stem);
    let filename = entry_filename(now.day, now.hour, now.minute, now.second, slug.as_str());
    let content = render_entry(stem, now.day, now.month, now.year, note);
    Ok(EntryPlan { filename, content })
}

} // verus!
