//! Which of the files in a model directory to load.

use vstd::prelude::*;

use crate::error::{seen, Error, Fault};
use crate::runtime::texts;
use crate::text::{ends_with, has_prefix, has_suffix, join, starts_with};

verus! {

/// The names under which the encoder is looked for, the preferred one first.
pub open spec fn encoder_names() -> Seq<Seq<char>> {
    seq!["encoder-model.onnx"@, "encoder.onnx"@, "encoder-model.int8.onnx"@]
}

/// The names under which the decoder is looked for, the preferred one first.
pub open spec fn decoder_joint_names() -> Seq<Seq<char>> {
    seq![
        "decoder_joint-model.onnx"@,
        "decoder_joint-model.int8.onnx"@,
        "decoder_joint.onnx"@,
        "decoder-model.onnx"@,
    ]
}

/// The first one of the names that is present.
pub open spec fn first_present(names: Seq<Seq<char>>, present: Seq<bool>) -> Option<Seq<char>>
    decreases names.len(),
{
    if names.len() == 0 {
        None
    } else {
        match first_present(names.drop_last(), present) {
            Some(name) => Some(name),
            None => if present[names.len() - 1] {
                Some(names.last())
            } else {
                None
            },
        }
    }
}

/// A file that may be an encoder: its name begins with `encoder` and ends with
/// `.onnx`.
pub open spec fn may_be_encoder(name: Seq<char>) -> bool {
    starts_with(name, "encoder"@) && ends_with(name, ".onnx"@)
}

/// The first entry of a directory that may be an encoder. An entry without a name
/// is one whose name is not valid text.
pub open spec fn first_encoder(listing: Seq<Option<String>>) -> Option<Seq<char>>
    decreases listing.len(),
{
    if listing.len() == 0 {
        None
    } else {
        match first_encoder(listing.drop_last()) {
            Some(name) => Some(name),
            None => match listing.last() {
                Some(name) if may_be_encoder(name@) => Some(name@),
                _ => None,
            },
        }
    }
}

/// The encoder file: the first of the known names that is present, else the first
/// entry of the directory that may be an encoder.
pub open spec fn encoder_file(present: Seq<bool>, listing: Seq<Option<String>>) -> Option<
    Seq<char>,
> {
    match first_present(encoder_names(), present) {
        Some(name) => Some(name),
        None => first_encoder(listing),
    }
}

/// A file that was found, or the message and the directory in which it was not.
pub open spec fn found_in(
    file: Option<Seq<char>>,
    message: Seq<char>,
    dir: Seq<char>,
) -> Result<Seq<char>, Fault> {
    match file {
        Some(name) => Ok(name),
        None => Err(Fault::Config(message + dir)),
    }
}

/// Finds the first one of the names that is present.
fn pick<const N: usize>(names: [&'static str; N], present: &Vec<bool>) -> (found: Option<
    &'static str,
>)
    requires
        present@.len() == N,
    ensures
        match found {
            Some(name) => first_present(texts(names@), present@) == Some(name@),
            None => first_present(texts(names@), present@) is None,
        },
{
    let ghost all = texts(names@);
    let mut i: usize = 0;
    assert(all.take(0) =~= Seq::empty());
    while i < N
        invariant
            i <= N,
            present@.len() == N,
            all == texts(names@),
            first_present(all.take(i as int), present@) is None,
        decreases N - i,
    {
        proof {
            assert(all.take(i + 1).drop_last() =~= all.take(i as int));
            assert(all.take(i + 1).last() == all[i as int]);
        }
        if present[i] {
            proof {
                lemma_first_present(all, present@, i + 1);
            }
            return Some(names[i]);
        }
        i += 1;
    }
    assert(all.take(N as int) =~= all);
    None
}

/// What is present among the first names decides among all.
proof fn lemma_first_present(names: Seq<Seq<char>>, present: Seq<bool>, count: int)
    requires
        0 <= count <= names.len(),
        first_present(names.take(count), present) is Some,
    ensures
        first_present(names, present) == first_present(names.take(count), present),
    decreases names.len(),
{
    if count == names.len() {
        assert(names.take(count) =~= names);
    } else {
        assert(names.drop_last().take(count) =~= names.take(count));
        lemma_first_present(names.drop_last(), present, count);
    }
}

/// What is found among the first entries decides among all.
proof fn lemma_first_encoder(listing: Seq<Option<String>>, count: int)
    requires
        0 <= count <= listing.len(),
        first_encoder(listing.take(count)) is Some,
    ensures
        first_encoder(listing) == first_encoder(listing.take(count)),
    decreases listing.len(),
{
    if count == listing.len() {
        assert(listing.take(count) =~= listing);
    } else {
        assert(listing.drop_last().take(count) =~= listing.take(count));
        lemma_first_encoder(listing.drop_last(), count);
    }
}

/// The names under which the encoder is looked for.
pub fn encoder_candidates() -> (names: [&'static str; 3])
    ensures
        texts(names@) == encoder_names(),
{
    let names: [&'static str; 3] = [
        "encoder-model.onnx",
        "encoder.onnx",
        "encoder-model.int8.onnx",
    ];
    assert(texts(names@) =~= encoder_names());
    names
}

/// The names under which the decoder is looked for.
pub fn decoder_joint_candidates() -> (names: [&'static str; 4])
    ensures
        texts(names@) == decoder_joint_names(),
{
    let names: [&'static str; 4] = [
        "decoder_joint-model.onnx",
        "decoder_joint-model.int8.onnx",
        "decoder_joint.onnx",
        "decoder-model.onnx",
    ];
    assert(texts(names@) =~= decoder_joint_names());
    names
}

/// Chooses the encoder file of a directory. `present` says of each known name
/// whether there is such a file; `listing` holds the names of the directory's
/// entries, in the order in which they were listed.
pub fn find_encoder(dir: &str, present: &Vec<bool>, listing: &Vec<Option<String>>) -> (result:
    Result<String, Error>)
    requires
        present@.len() == encoder_names().len(),
    ensures
        seen(result) == found_in(
            encoder_file(present@, listing@),
            "No encoder model found in "@,
            dir@,
        ),
{
    let candidates = encoder_candidates();
    if let Some(name) = pick(candidates, present) {
        return Ok(String::from_str(name));
    }
    let mut i: usize = 0;
    assert(listing@.take(0) =~= Seq::empty());
    while i < listing.len()
        invariant
            i <= listing@.len(),
            first_present(encoder_names(), present@) is None,
            first_encoder(listing@.take(i as int)) is None,
        decreases listing@.len() - i,
    {
        proof {
            assert(listing@.take(i + 1).drop_last() =~= listing@.take(i as int));
            assert(listing@.take(i + 1).last() == listing@[i as int]);
        }
        if let Some(name) = &listing[i] {
            if has_prefix(name.as_str(), "encoder") && has_suffix(name.as_str(), ".onnx") {
                proof {
                    lemma_first_encoder(listing@, i + 1);
                }
                return Ok(name.clone());
            }
        }
        i += 1;
    }
    assert(listing@.take(i as int) =~= listing@);
    Err(Error::Config(join("No encoder model found in ", dir)))
}

/// Chooses the decoder file of a directory. `present` says of each known name
/// whether there is such a file.
pub fn find_decoder_joint(dir: &str, present: &Vec<bool>) -> (result: Result<String, Error>)
    requires
        present@.len() == decoder_joint_names().len(),
    ensures
        seen(result) == found_in(
            first_present(decoder_joint_names(), present@),
            "No decoder_joint model found in "@,
            dir@,
        ),
{
    let candidates = decoder_joint_candidates();
    if let Some(name) = pick(candidates, present) {
        return Ok(String::from_str(name));
    }
    Err(Error::Config(join("No decoder_joint model found in ", dir)))
}

/// Of names that are looked for in turn, the first one that is present is chosen.
pub proof fn law_first_present_name_is_chosen(
    names: Seq<Seq<char>>,
    present: Seq<bool>,
    index: int,
)
    requires
        present.len() == names.len(),
        0 <= index < present.len(),
        present[index],
        forall|i: int| 0 <= i < index ==> !#[trigger] present[i],
    ensures
        first_present(names, present) == Some(names[index]),
{
    let found = names.take(index + 1);
    lemma_none_present(names, present, index);
    assert(found.drop_last() =~= names.take(index));
    assert(found.last() == names[index]);
    lemma_first_present(names, present, index + 1);
}

/// Where no name is present, none is chosen.
pub proof fn law_nothing_present_nothing_chosen(names: Seq<Seq<char>>, present: Seq<bool>)
    requires
        present.len() == names.len(),
        forall|i: int| 0 <= i < present.len() ==> !#[trigger] present[i],
    ensures
        first_present(names, present) is None,
{
    lemma_none_present(names, present, names.len() as int);
    assert(names.take(names.len() as int) =~= names);
}

/// Names that are not present are not chosen.
proof fn lemma_none_present(names: Seq<Seq<char>>, present: Seq<bool>, count: int)
    requires
        0 <= count <= names.len() == present.len(),
        forall|i: int| 0 <= i < count ==> !#[trigger] present[i],
    ensures
        first_present(names.take(count), present) is None,
    decreases count,
{
    if count > 0 {
        lemma_none_present(names, present, count - 1);
        assert(names.take(count).drop_last() =~= names.take(count - 1));
        assert(!present[count - 1]);
    }
}

/// A file that was found is handed on under its name; otherwise the error is the message
/// with the directory behind it.
pub proof fn law_found_file_keeps_its_name(
    name: Seq<char>,
    message: Seq<char>,
    dir: Seq<char>,
)
    ensures
        found_in(Some(name), message, dir) == Ok::<_, Fault>(name),
        found_in(None, message, dir) == Err::<Seq<char>, _>(Fault::Config(message + dir)),
{
}

/// The decoder of a directory is the first one present of the plain export, the
/// quantised one, the short name and the decoder's own name; without any of them the
/// error names the directory.
pub proof fn law_decoder_is_chosen_by_preference(present: Seq<bool>, dir: Seq<char>)
    requires
        present.len() == 4,
    ensures
        ({
            let message = "No decoder_joint model found in "@;
            let chosen = found_in(first_present(decoder_joint_names(), present), message, dir);
            if present[0] {
                chosen == Ok::<_, Fault>("decoder_joint-model.onnx"@)
            } else if present[1] {
                chosen == Ok::<_, Fault>("decoder_joint-model.int8.onnx"@)
            } else if present[2] {
                chosen == Ok::<_, Fault>("decoder_joint.onnx"@)
            } else if present[3] {
                chosen == Ok::<_, Fault>("decoder-model.onnx"@)
            } else {
                chosen == Err::<Seq<char>, _>(Fault::Config(message + dir))
            }
        }),
{
    let names = decoder_joint_names();
    if present[0] {
        law_first_present_name_is_chosen(names, present, 0);
    } else if present[1] {
        law_first_present_name_is_chosen(names, present, 1);
    } else if present[2] {
        law_first_present_name_is_chosen(names, present, 2);
    } else if present[3] {
        law_first_present_name_is_chosen(names, present, 3);
    } else {
        law_nothing_present_nothing_chosen(names, present);
    }
}

/// The encoder of a directory is the first one present of the plain export, the short
/// name and the quantised export. Only without any of them does the listing count.
pub proof fn law_encoder_is_chosen_by_preference(
    present: Seq<bool>,
    listing: Seq<Option<String>>,
)
    requires
        present.len() == 3,
    ensures
        ({
            let chosen = encoder_file(present, listing);
            if present[0] {
                chosen == Some("encoder-model.onnx"@)
            } else if present[1] {
                chosen == Some("encoder.onnx"@)
            } else if present[2] {
                chosen == Some("encoder-model.int8.onnx"@)
            } else {
                chosen == first_encoder(listing)
            }
        }),
{
    let names = encoder_names();
    if present[0] {
        law_first_present_name_is_chosen(names, present, 0);
    } else if present[1] {
        law_first_present_name_is_chosen(names, present, 1);
    } else if present[2] {
        law_first_present_name_is_chosen(names, present, 2);
    } else {
        law_nothing_present_nothing_chosen(names, present);
    }
}

/// Where no known name is present, the encoder is the first entry of the listing whose
/// name is text, begins with `encoder` and ends with `.onnx`.
pub proof fn law_listing_is_searched_in_order(
    present: Seq<bool>,
    listing: Seq<Option<String>>,
    index: int,
    dir: Seq<char>,
)
    requires
        present == seq![false, false, false],
        0 <= index <= listing.len(),
        forall|i: int|
            0 <= i < index ==> ((#[trigger] listing[i]) matches Some(name) ==> !(starts_with(
                name@,
                "encoder"@,
            ) && ends_with(name@, ".onnx"@))),
        index < listing.len() ==> (listing[index] matches Some(name) && starts_with(
            name@,
            "encoder"@,
        ) && ends_with(name@, ".onnx"@)),
    ensures
        found_in(encoder_file(present, listing), "No encoder model found in "@, dir) == if index
            < listing.len() {
            Ok::<_, Fault>(listing[index]->0@)
        } else {
            Err::<Seq<char>, _>(Fault::Config("No encoder model found in "@ + dir))
        },
{
    law_encoder_is_chosen_by_preference(present, listing);
    lemma_no_encoder(listing, index);
    if index < listing.len() {
        let found = listing.take(index + 1);
        assert(found.drop_last() =~= listing.take(index));
        assert(found.last() == listing[index]);
        lemma_first_encoder(listing, index + 1);
    } else {
        assert(listing.take(index) =~= listing);
    }
}

/// Entries that cannot be an encoder are passed over.
proof fn lemma_no_encoder(listing: Seq<Option<String>>, count: int)
    requires
        0 <= count <= listing.len(),
        forall|i: int|
            0 <= i < count ==> ((#[trigger] listing[i]) matches Some(name) ==> !may_be_encoder(
                name@,
            )),
    ensures
        first_encoder(listing.take(count)) is None,
    decreases count,
{
    if count > 0 {
        lemma_no_encoder(listing, count - 1);
        assert(listing.take(count).drop_last() =~= listing.take(count - 1));
        assert(listing.take(count).last() == listing[count - 1]);
    }
}

/// A known name is chosen before anything else in the directory, and an earlier one
/// before a later one.
pub proof fn law_known_names_come_first(
    present: Seq<bool>,
    listing: Seq<Option<String>>,
    index: int,
)
    requires
        present.len() == encoder_names().len(),
        0 <= index < present.len(),
        present[index],
        forall|i: int| 0 <= i < index ==> !present[i],
    ensures
        encoder_file(present, listing) == Some(encoder_names()[index]),
{
    law_first_present_name_is_chosen(encoder_names(), present, index);
}

} // verus!
