//! File endpoints, of sandboxes and of volumes alike, and the removal of volumes.
use crate::backend::{FsEntry, FsMetadata};
use crate::cloud::{CloudFsEntry, CloudFsExistsResponse, CloudFsMetadata, CloudMessageResponse};
use crate::convert::{
    cloud_fs_entry_from_sdk, cloud_fs_metadata_from_sdk, fs_entry_answer, fs_metadata_answer,
};
use crate::error::{backend_refusal, with_local_backend, ApiError, ApiErrorView, BackendError};
use crate::lifecycle::{message_view, operated_view};
use crate::text::joined;
use vstd::prelude::*;
use vstd::string::*;

verus! {

/// A change to the files of a sandbox or a volume.
#[derive(Debug, Clone, Copy, PartialEq, Eq, Structural)]
pub enum FsMutation {
    Write,
    Mkdir,
    Remove,
    Copy,
    Rename,
}

/// The message that a change is answered by.
pub open spec fn mutation_message(mutation: FsMutation) -> Seq<char> {
    match mutation {
        FsMutation::Write => "file written"@,
        FsMutation::Mkdir => "directory created"@,
        FsMutation::Remove => "path removed"@,
        FsMutation::Copy => "path copied"@,
        FsMutation::Rename => "path renamed"@,
    }
}

/// The answer to a change of files.
pub fn fs_mutation_response(mutation: FsMutation, done: Result<(), BackendError>) -> (answer:
    Result<CloudMessageResponse, ApiError>)
    ensures
        message_view(answer) == match operated_view(done) {
            Ok(_) => Ok::<Seq<char>, ApiErrorView>(mutation_message(mutation)),
            Err(error) => Err(backend_refusal(error)),
        },
{
    match with_local_backend(done) {
        Ok(_) => {
            let message: &'static str = match mutation {
                FsMutation::Write => "file written",
                FsMutation::Mkdir => "directory created",
                FsMutation::Remove => "path removed",
                FsMutation::Copy => "path copied",
                FsMutation::Rename => "path renamed",
            };
            Ok(CloudMessageResponse { message: message.to_string() })
        },
        Err(refusal) => Err(refusal),
    }
}

/// How a path is removed.
#[derive(Debug, Clone, Copy, PartialEq, Eq, Structural)]
pub enum Removal {
    /// The path itself.
    Path,
    /// The directory with all it holds.
    Directory,
}

/// How a path is removed: with all it holds where that is asked for.
pub fn removal_of(recursive: bool) -> (removal: Removal)
    ensures
        removal == if recursive {
            Removal::Directory
        } else {
            Removal::Path
        },
{
    if recursive {
        Removal::Directory
    } else {
        Removal::Path
    }
}

/// The answer to a directory listing.
pub fn fs_list_response(listed: Result<Vec<FsEntry>, BackendError>) -> (answer: Result<
    Vec<CloudFsEntry>,
    ApiError,
>)
    ensures
        match listed {
            Ok(entries) => {
                &&& answer is Ok
                &&& answer->Ok_0@ == entries@.map_values(|entry: FsEntry| fs_entry_answer(entry))
            },
            Err(error) => answer is Err && answer->Err_0@ == backend_refusal(error@),
        },
{
    let entries = match with_local_backend(listed) {
        Ok(entries) => entries,
        Err(refusal) => {
            return Err(refusal);
        },
    };
    let ghost all = entries@;
    let mut answers: Vec<CloudFsEntry> = Vec::new();
    for entry in it: entries
        invariant
            it.seq() == all,
            answers@ == all.take(it.index()).map_values(|entry: FsEntry| fs_entry_answer(entry)),
    {
        answers.push(cloud_fs_entry_from_sdk(entry));
        assert(answers@ =~= all.take(it.index() + 1).map_values(
            |entry: FsEntry| fs_entry_answer(entry),
        ));
    }
    assert(all.take(all.len() as int) =~= all);
    Ok(answers)
}

/// The answer to a request for the metadata of a path.
pub fn fs_stat_response(metadata: Result<FsMetadata, BackendError>) -> (answer: Result<
    CloudFsMetadata,
    ApiError,
>)
    ensures
        match metadata {
            Ok(metadata) => answer == Ok::<CloudFsMetadata, ApiError>(fs_metadata_answer(metadata)),
            Err(error) => answer is Err && answer->Err_0@ == backend_refusal(error@),
        },
{
    match with_local_backend(metadata) {
        Ok(metadata) => Ok(cloud_fs_metadata_from_sdk(metadata)),
        Err(refusal) => Err(refusal),
    }
}

/// The answer where a path is or is not present.
pub open spec fn presence_answer(present: bool) -> CloudFsExistsResponse {
    CloudFsExistsResponse { exists: present }
}

/// The answer to the question whether a path exists.
pub fn fs_exists_response(looked_up: Result<bool, BackendError>) -> (answer: Result<
    CloudFsExistsResponse,
    ApiError,
>)
    ensures
        match looked_up {
            Ok(present) => answer == Ok::<CloudFsExistsResponse, ApiError>(
                presence_answer(present),
            ),
            Err(error) => answer is Err && answer->Err_0@ == backend_refusal(error@),
        },
{
    match with_local_backend(looked_up) {
        Ok(present) => Ok(CloudFsExistsResponse { exists: present }),
        Err(refusal) => Err(refusal),
    }
}

/// The answer to the removal of the volume `name`.
pub fn remove_volume_by_name(name: &str, removed: Result<(), BackendError>) -> (answer: Result<
    CloudMessageResponse,
    ApiError,
>)
    ensures
        message_view(answer) == match operated_view(removed) {
            Ok(_) => Ok::<Seq<char>, ApiErrorView>("volume "@ + name@ + " removed"@),
            Err(error) => Err(backend_refusal(error)),
        },
{
    match with_local_backend(removed) {
        Ok(_) => Ok(CloudMessageResponse { message: joined("volume ", name, " removed") }),
        Err(refusal) => Err(refusal),
    }
}

/// The messages of the five changes, and that a path is told to be there exactly where it is.
pub proof fn law_answers_tell_what_was_done(present: bool)
    ensures
        mutation_message(FsMutation::Write) == "file written"@,
        mutation_message(FsMutation::Mkdir) == "directory created"@,
        mutation_message(FsMutation::Remove) == "path removed"@,
        mutation_message(FsMutation::Copy) == "path copied"@,
        mutation_message(FsMutation::Rename) == "path renamed"@,
        presence_answer(present).exists <==> present,
{
}

} // verus!
