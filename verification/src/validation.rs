//! Checks on titles, bodies, tags, mentions and sections. Each either
//! accepts its input or names the first rule that the input breaks.

use vstd::prelude::*;
use vstd::string::*;

use crate::error::{invalid, ContractError};
use crate::state::models::{
    Section, MAX_BODY_LENGTH, MAX_MENTIONS, MAX_SECTIONS, MAX_TAGS, MAX_TAG_LENGTH,
    MAX_TITLE_LENGTH,
};
use crate::text::{
    alphanumeric, begins_with, blank, byte_len, decimal, decimal_string, is_alphanumeric, is_blank,
    join3, longer_than, starts_with_char,
};

verus! {

/// A check's result agrees with the reason found, if any, for refusing.
pub open spec fn judged(fault: Option<Seq<char>>, r: Result<(), ContractError>) -> bool {
    match fault {
        Some(reason) => r is Err && r->Err_0@ == invalid(reason),
        None => r is Ok,
    }
}

/// The first reason in a list, from a given place on.
pub open spec fn first_fault(faults: Seq<Option<Seq<char>>>, from: int) -> Option<Seq<char>>
    decreases faults.len() - from,
{
    if from < 0 || from >= faults.len() {
        None
    } else if faults[from] is Some {
        faults[from]
    } else {
        first_fault(faults, from + 1)
    }
}

/// The characters of each text of a list.
pub open spec fn texts(list: Seq<String>) -> Seq<Seq<char>> {
    list.map_values(|s: String| s@)
}

/// The characters of each text of a list that may be absent.
pub open spec fn opt_texts(list: Option<Vec<String>>) -> Option<Seq<Seq<char>>> {
    match list {
        Some(v) => Some(texts(v@)),
        None => None,
    }
}

/// Why a title is refused: it is blank, or longer than 200 bytes.
pub open spec fn title_fault(title: Seq<char>) -> Option<Seq<char>> {
    if blank(title) {
        Some("Title cannot be empty"@)
    } else if byte_len(title) > MAX_TITLE_LENGTH {
        Some("Title length exceeds maximum of 200 characters"@)
    } else {
        None
    }
}

/// Why a body is refused: it is blank, or longer than 50000 bytes.
pub open spec fn body_fault(body: Seq<char>) -> Option<Seq<char>> {
    if blank(body) {
        Some("Body cannot be empty"@)
    } else if byte_len(body) > MAX_BODY_LENGTH {
        Some("Body length exceeds maximum of 50000 characters"@)
    } else {
        None
    }
}

/// A character that a tag may hold.
pub open spec fn tag_char(c: char) -> bool {
    alphanumeric(c) || c == '-' || c == '_'
}

/// Every character of the text is one that a tag may hold.
pub open spec fn tag_charset(tag: Seq<char>) -> bool {
    forall|i: int| 0 <= i < tag.len() ==> tag_char(#[trigger] tag[i])
}

/// Why a tag is refused: it is blank, longer than 30 bytes, or holds a
/// character that is neither alphanumeric nor a hyphen nor an underscore.
pub open spec fn tag_fault(tag: Seq<char>) -> Option<Seq<char>> {
    if blank(tag) {
        Some("Tag cannot be empty"@)
    } else if byte_len(tag) > MAX_TAG_LENGTH {
        Some("Tag '"@ + tag + "' exceeds maximum length of 30 characters"@)
    } else if !tag_charset(tag) {
        Some(
            "Tag '"@ + tag
                + "' contains invalid characters. Only alphanumeric, hyphens, and underscores allowed"@,
        )
    } else {
        None
    }
}

/// Why a list of tags is refused: it holds more than 10, or one of them is
/// refused; the first such tag gives the reason.
pub open spec fn tags_fault(tags: Option<Seq<Seq<char>>>) -> Option<Seq<char>> {
    match tags {
        None => None,
        Some(list) => if list.len() > MAX_TAGS {
            Some("Number of tags exceeds maximum of 10"@)
        } else {
            first_fault(list.map_values(|t: Seq<char>| tag_fault(t)), 0)
        },
    }
}

/// Why a mention is refused: it does not begin with `@`, or is `@` alone.
pub open spec fn mention_fault(mention: Seq<char>) -> Option<Seq<char>> {
    if !begins_with(mention, '@') {
        Some("Mention '"@ + mention + "' must start with @"@)
    } else if byte_len(mention) <= 1 {
        Some("Mention cannot be just @"@)
    } else {
        None
    }
}

/// Why a list of mentions is refused: it holds more than 20, or one of them
/// is refused; the first such mention gives the reason.
pub open spec fn mentions_fault(mentions: Option<Seq<Seq<char>>>) -> Option<Seq<char>> {
    match mentions {
        None => None,
        Some(list) => if list.len() > MAX_MENTIONS {
            Some("Number of mentions exceeds maximum of 20"@)
        } else {
            first_fault(list.map_values(|m: Seq<char>| mention_fault(m)), 0)
        },
    }
}

/// The reason that names a section by its place in the list.
pub open spec fn section_reason(idx: nat, what: Seq<char>) -> Seq<char> {
    "Section "@ + decimal(idx) + what
}

/// Why the section at a place is refused. Text and code must not be blank
/// nor longer than 50000 bytes; the address of an image or a link, the
/// language of code and the text of a link, where given, must not be blank.
pub open spec fn section_fault(idx: nat, section: Section) -> Option<Seq<char>> {
    match section {
        Section::Text(text) => if blank(text@) {
            Some(section_reason(idx, " text content cannot be empty"@))
        } else if byte_len(text@) > MAX_BODY_LENGTH {
            Some(section_reason(idx, " text exceeds maximum length of 50000 characters"@))
        } else {
            None
        },
        Section::Image(url) => if blank(url@) {
            Some(section_reason(idx, " image URL cannot be empty"@))
        } else {
            None
        },
        Section::Code { lang, text } => if blank(text@) {
            Some(section_reason(idx, " code content cannot be empty"@))
        } else if byte_len(text@) > MAX_BODY_LENGTH {
            Some(section_reason(idx, " code exceeds maximum length of 50000 characters"@))
        } else if lang is Some && blank(lang->Some_0@) {
            Some(section_reason(idx, " code language cannot be empty if specified"@))
        } else {
            None
        },
        Section::Link { text, url } => if blank(url@) {
            Some(section_reason(idx, " link URL cannot be empty"@))
        } else if text is Some && blank(text->Some_0@) {
            Some(section_reason(idx, " link text cannot be empty if specified"@))
        } else {
            None
        },
    }
}

/// Why a list of sections is refused: it holds more than 20, or one of them
/// is refused; the first such section gives the reason.
pub open spec fn sections_fault(sections: Option<Vec<Section>>) -> Option<Seq<char>> {
    match sections {
        None => None,
        Some(list) => if list@.len() > MAX_SECTIONS {
            Some("Number of sections exceeds maximum of 20"@)
        } else {
            first_fault(Seq::new(list@.len(), |i: int| section_fault(i as nat, list@[i])), 0)
        },
    }
}

/// Validates that a title is not blank and within the length limit.
pub fn validate_title(title: &str) -> (r: Result<(), ContractError>)
    ensures
        judged(title_fault(title@), r),
{
    if is_blank(title) {
        return Err(ContractError::validation("Title cannot be empty"));
    }
    if longer_than(title, MAX_TITLE_LENGTH) {
        return Err(ContractError::validation("Title length exceeds maximum of 200 characters"));
    }
    Ok(())
}

/// Validates that a body is not blank and within the length limit.
pub fn validate_body(body: &str) -> (r: Result<(), ContractError>)
    ensures
        judged(body_fault(body@), r),
{
    if is_blank(body) {
        return Err(ContractError::validation("Body cannot be empty"));
    }
    if longer_than(body, MAX_BODY_LENGTH) {
        return Err(ContractError::validation("Body length exceeds maximum of 50000 characters"));
    }
    Ok(())
}

/// Whether every character of a text may stand in a tag.
fn has_tag_charset(tag: &str) -> (b: bool)
    ensures
        b == tag_charset(tag@),
{
    let n = tag.unicode_len();
    let mut i: usize = 0;
    while i < n
        invariant
            n == tag@.len(),
            i <= n,
            forall|j: int| 0 <= j < i ==> tag_char(#[trigger] tag@[j]),
        decreases n - i,
    {
        let c = tag.get_char(i);
        if !(is_alphanumeric(c) || c == '-' || c == '_') {
            return false;
        }
        i += 1;
    }
    true
}

/// Validates one tag.
fn validate_tag(tag: &str) -> (r: Result<(), ContractError>)
    ensures
        judged(tag_fault(tag@), r),
{
    if is_blank(tag) {
        return Err(ContractError::validation("Tag cannot be empty"));
    }
    if longer_than(tag, MAX_TAG_LENGTH) {
        let reason = join3("Tag '", tag, "' exceeds maximum length of 30 characters");
        return Err(ContractError::ValidationError { reason });
    }
    if !has_tag_charset(tag) {
        let reason = join3(
            "Tag '",
            tag,
            "' contains invalid characters. Only alphanumeric, hyphens, and underscores allowed",
        );
        return Err(ContractError::ValidationError { reason });
    }
    Ok(())
}

/// Validates tags: their number, and of each its length and characters.
pub fn validate_tags(tags: &Option<Vec<String>>) -> (r: Result<(), ContractError>)
    ensures
        judged(tags_fault(opt_texts(*tags)), r),
{
    if let Some(tag_list) = tags {
        if tag_list.len() > MAX_TAGS {
            return Err(ContractError::validation("Number of tags exceeds maximum of 10"));
        }
        let ghost faults = texts(tag_list@).map_values(|t: Seq<char>| tag_fault(t));
        let mut i: usize = 0;
        while i < tag_list.len()
            invariant
                i <= tag_list.len(),
                tag_list.len() <= MAX_TAGS,
                opt_texts(*tags) == Some(texts(tag_list@)),
                faults == texts(tag_list@).map_values(|t: Seq<char>| tag_fault(t)),
                first_fault(faults, 0) == first_fault(faults, i as int),
            decreases tag_list.len() - i,
        {
            let r = validate_tag(tag_list[i].as_str());
            assert(faults[i as int] == tag_fault(tag_list@[i as int]@));
            if r.is_err() {
                return r;
            }
            i += 1;
        }
    }
    Ok(())
}

/// Validates one mention.
fn validate_mention(mention: &str) -> (r: Result<(), ContractError>)
    ensures
        judged(mention_fault(mention@), r),
{
    if !starts_with_char(mention, '@') {
        let reason = join3("Mention '", mention, "' must start with @");
        return Err(ContractError::ValidationError { reason });
    }
    if !longer_than(mention, 1) {
        return Err(ContractError::validation("Mention cannot be just @"));
    }
    Ok(())
}

/// Validates mentions: their number, and of each that it begins with `@`
/// and goes on after it.
pub fn validate_mentions(mentions: &Option<Vec<String>>) -> (r: Result<(), ContractError>)
    ensures
        judged(mentions_fault(opt_texts(*mentions)), r),
{
    if let Some(mention_list) = mentions {
        if mention_list.len() > MAX_MENTIONS {
            return Err(ContractError::validation("Number of mentions exceeds maximum of 20"));
        }
        let ghost faults = texts(mention_list@).map_values(|m: Seq<char>| mention_fault(m));
        let mut i: usize = 0;
        while i < mention_list.len()
            invariant
                i <= mention_list.len(),
                mention_list.len() <= MAX_MENTIONS,
                opt_texts(*mentions) == Some(texts(mention_list@)),
                faults == texts(mention_list@).map_values(|m: Seq<char>| mention_fault(m)),
                first_fault(faults, 0) == first_fault(faults, i as int),
            decreases mention_list.len() - i,
        {
            let r = validate_mention(mention_list[i].as_str());
            assert(faults[i as int] == mention_fault(mention_list@[i as int]@));
            if r.is_err() {
                return r;
            }
            i += 1;
        }
    }
    Ok(())
}

/// The error that names a section by its place in the list.
fn section_error(idx: usize, what: &str) -> (e: ContractError)
    ensures
        e@ == invalid(section_reason(idx as nat, what@)),
{
    let number = decimal_string(idx as u128);
    let reason = join3("Section ", number.as_str(), what);
    ContractError::ValidationError { reason }
}

/// Validates one section, which stands at place `idx` of its list.
fn validate_section(idx: usize, section: &Section) -> (r: Result<(), ContractError>)
    ensures
        judged(section_fault(idx as nat, *section), r),
{
    match section {
        Section::Text(text) => {
            if is_blank(text.as_str()) {
                return Err(section_error(idx, " text content cannot be empty"));
            }
            if longer_than(text.as_str(), MAX_BODY_LENGTH) {
                return Err(
                    section_error(idx, " text exceeds maximum length of 50000 characters"),
                );
            }
        },
        Section::Image(url) => {
            if is_blank(url.as_str()) {
                return Err(section_error(idx, " image URL cannot be empty"));
            }
        },
        Section::Code { lang, text } => {
            if is_blank(text.as_str()) {
                return Err(section_error(idx, " code content cannot be empty"));
            }
            if longer_than(text.as_str(), MAX_BODY_LENGTH) {
                return Err(
                    section_error(idx, " code exceeds maximum length of 50000 characters"),
                );
            }
            if let Some(language) = lang {
                if is_blank(language.as_str()) {
                    return Err(
                        section_error(idx, " code language cannot be empty if specified"),
                    );
                }
            }
        },
        Section::Link { text, url } => {
            if is_blank(url.as_str()) {
                return Err(section_error(idx, " link URL cannot be empty"));
            }
            if let Some(link_text) = text {
                if is_blank(link_text.as_str()) {
                    return Err(section_error(idx, " link text cannot be empty if specified"));
                }
            }
        },
    }
    Ok(())
}

/// Validates sections: their number, and the content of each.
pub fn validate_sections(sections: &Option<Vec<Section>>) -> (r: Result<(), ContractError>)
    ensures
        judged(sections_fault(*sections), r),
{
    if let Some(section_list) = sections {
        if section_list.len() > MAX_SECTIONS {
            return Err(ContractError::validation("Number of sections exceeds maximum of 20"));
        }
        let ghost faults = Seq::new(
            section_list@.len(),
            |i: int| section_fault(i as nat, section_list@[i]),
        );
        let mut idx: usize = 0;
        while idx < section_list.len()
            invariant
                idx <= section_list.len(),
                section_list.len() <= MAX_SECTIONS,
                *sections == Some(*section_list),
                faults == Seq::new(
                    section_list@.len(),
                    |i: int| section_fault(i as nat, section_list@[i]),
                ),
                first_fault(faults, 0) == first_fault(faults, idx as int),
            decreases section_list.len() - idx,
        {
            let r = validate_section(idx, &section_list[idx]);
            if r.is_err() {
                return r;
            }
            idx += 1;
        }
    }
    Ok(())
}

} // verus!
