//! Checks on task data before it is stored.

use vstd::prelude::*;
use vstd::string::*;
use crate::engine::rejected;
use crate::error::{EddaError, EddaResult, TaskError};
use crate::text::{blank, char_is_control, is_blank, is_control, printable, push_char};

verus! {

/// The longest description, in bytes of its UTF-8 form.
pub const MAX_DESCRIPTION_LEN: usize = 1000;

/// The longest project name, in bytes of its UTF-8 form.
pub const MAX_PROJECT_LEN: usize = 100;

/// The longest tag, in bytes of its UTF-8 form.
pub const MAX_TAG_LEN: usize = 50;

/// Removes the control codes, the NUL character among them, from a text.
pub fn sanitize_string(input: &str) -> (r: String)
    ensures
        r@ == printable(input@),
{
    let mut r = String::new();
    for c in it: input.chars()
        invariant
            it.seq() == input@,
            r@ == printable(input@.take(it.index() as int)),
    {
        let ghost k = it.index() as int;
        let ghost prefix = input@.take(k + 1);
        assert(prefix.drop_last() =~= input@.take(k));
        assert(prefix.last() == c);
        if !char_is_control(c) {
            push_char(&mut r, c);
        }
    }
    assert(input@.take(input@.len() as int) =~= input@);
    r
}

/// The length of a text in bytes of its UTF-8 form.
pub open spec fn byte_len(s: Seq<char>) -> nat {
    vstd::utf8::encode_utf8(s).len()
}

/// The length of a text in bytes of its UTF-8 form.
pub fn byte_length(s: &str) -> (n: usize)
    ensures
        n == byte_len(s@),
{
    s.as_bytes().len()
}

/// Whether a tag is acceptable: not blank and of at most 50 bytes.
pub open spec fn tag_ok(tag: &String) -> bool {
    !blank(tag@) && byte_len(tag@) <= MAX_TAG_LEN
}

/// The message for the first tag that is not acceptable.
pub open spec fn tag_fault(tag: &String) -> Seq<char> {
    if blank(tag@) {
        "Tag cannot be empty"@
    } else {
        "Tag '"@ + tag@ + "' too long (max 50 characters)"@
    }
}

/// Checks the data of a task: the description is not blank and has at most
/// 1000 bytes, the project name at most 100, and every tag is not blank
/// and has at most 50. The first fault, in that order, is reported.
pub fn validate_task_data(description: &str, project: Option<&str>, tags: &[String]) -> (r:
    EddaResult<()>)
    ensures
        blank(description@) ==> rejected(r, "Task description cannot be empty"@),
        !blank(description@) && byte_len(description@) > MAX_DESCRIPTION_LEN ==> rejected(
            r,
            "Task description too long (max 1000 characters)"@,
        ),
        !blank(description@) && byte_len(description@) <= MAX_DESCRIPTION_LEN ==> match project {
            Some(name) if byte_len(name@) > MAX_PROJECT_LEN => rejected(
                r,
                "Project name too long (max 100 characters)"@,
            ),
            _ => {
                if forall|i: int| 0 <= i < tags@.len() ==> tag_ok(#[trigger] &tags@[i]) {
                    r is Ok
                } else {
                    exists|i: int|
                        0 <= i < tags@.len() && !tag_ok(#[trigger] &tags@[i]) && (forall|j: int|
                            0 <= j < i ==> tag_ok(#[trigger] &tags@[j])) && rejected(
                            r,
                            tag_fault(&tags@[i]),
                        )
                }
            },
        },
{
    if is_blank(description) {
        return Err(
            EddaError::Task(
                TaskError::Validation { message: "Task description cannot be empty".to_owned() },
            ),
        );
    }
    if byte_length(description) > MAX_DESCRIPTION_LEN {
        return Err(
            EddaError::Task(
                TaskError::Validation {
                    message: "Task description too long (max 1000 characters)".to_owned(),
                },
            ),
        );
    }
    match project {
        Some(name) => {
            if byte_length(name) > MAX_PROJECT_LEN {
                return Err(
                    EddaError::Task(
                        TaskError::Validation {
                            message: "Project name too long (max 100 characters)".to_owned(),
                        },
                    ),
                );
            }
        },
        None => {},
    }
    let mut i: usize = 0;
    while i < tags.len()
        invariant
            i <= tags.len(),
            !blank(description@),
            byte_len(description@) <= MAX_DESCRIPTION_LEN,
            project matches Some(name) ==> byte_len(name@) <= MAX_PROJECT_LEN,
            forall|j: int| 0 <= j < i ==> tag_ok(#[trigger] &tags@[j]),
        decreases tags.len() - i,
    {
        let tag = &tags[i];
        if is_blank(tag.as_str()) {
            assert(!tag_ok(&tags@[i as int]));
            return Err(
                EddaError::Task(
                    TaskError::Validation { message: "Tag cannot be empty".to_owned() },
                ),
            );
        }
        if byte_length(tag.as_str()) > MAX_TAG_LEN {
            let mut message = "Tag '".to_owned();
            message.append(tag.as_str());
            message.append("' too long (max 50 characters)");
            assert(!tag_ok(&tags@[i as int]));
            assert(message@ =~= tag_fault(&tags@[i as int]));
            return Err(EddaError::Task(TaskError::Validation { message }));
        }
        i = i + 1;
    }
    Ok(())
}

} // verus!
