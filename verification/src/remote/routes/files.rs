//! The avatar endpoints: what they admit, and how their failures are told.

use vstd::prelude::*;
use vstd::string::StringExecFns;

use crate::remote::files::{
    allowed_avatar_types,
    avatar_folder,
    avatar_key,
    invalid_type_message,
    is_allowed_avatar_type,
    may_delete,
    public_url_of,
    FileInfo,
    FilesError,
    FilesService,
    UploadPlan,
};
use crate::remote::routes::error::ErrorResponse;
use crate::status::{BAD_REQUEST, INTERNAL_SERVER_ERROR, PAYLOAD_TOO_LARGE, SERVICE_UNAVAILABLE};
use crate::text::{decimal, decimal_text};

verus! {

/// The type and, where it is known, the size of the avatar to upload.
#[derive(Debug, Clone)]
pub struct CreateAvatarUploadRequest {
    pub content_type: String,
    pub content_length: Option<u64>,
}

/// Where to send the avatar, and where it will be read.
#[derive(Debug, Clone)]
pub struct CreateAvatarUploadResponse {
    pub upload_url: String,
    pub object_key: String,
    pub public_url: String,
    pub expires_at: i64,
}

/// What is shown of a stored file.
#[derive(Debug, Clone)]
pub struct FileInfoResponse {
    pub key: String,
    pub public_url: String,
    pub size: Option<i64>,
    pub last_modified: Option<i64>,
}

/// The avatars of a user.
#[derive(Debug, Clone)]
pub struct ListAvatarsResponse {
    pub avatars: Vec<FileInfoResponse>,
}

/// How many avatars were deleted.
#[derive(Debug, Clone, Copy, PartialEq, Eq, Structural)]
pub struct DeleteAvatarsResponse {
    pub deleted_count: u32,
}

/// Whether avatars can be stored, and which.
#[derive(Debug, Clone)]
pub struct FilesConfigResponse {
    pub enabled: bool,
    pub max_file_size_bytes: Option<u64>,
    pub allowed_types: Vec<String>,
}

/// Failures of the avatar endpoints.
#[derive(Debug, Clone)]
pub enum FilesRouteError {
    NotConfigured,
    Files(FilesError),
}

/// The message that tells of a file over the limit.
pub open spec fn too_large_message(size: u64, max: u64) -> Seq<char> {
    "File size "@ + decimal(size as nat) + " bytes exceeds maximum "@ + decimal(max as nat)
        + " bytes"@
}

impl FilesRouteError {
    /// The status under which the failure is sent.
    pub open spec fn status(self) -> u16 {
        match self {
            FilesRouteError::NotConfigured => SERVICE_UNAVAILABLE,
            FilesRouteError::Files(FilesError::InvalidFileType(_)) => BAD_REQUEST,
            FilesRouteError::Files(FilesError::FileTooLarge(_, _)) => PAYLOAD_TOO_LARGE,
            FilesRouteError::Files(_) => INTERNAL_SERVER_ERROR,
        }
    }

    /// The message that tells the failure. A failure of the object store is
    /// told without detail.
    pub open spec fn message(self) -> Seq<char> {
        match self {
            FilesRouteError::NotConfigured => "File storage service not available"@,
            FilesRouteError::Files(FilesError::InvalidFileType(message)) => message@,
            FilesRouteError::Files(FilesError::FileTooLarge(size, max)) => too_large_message(
                size,
                max,
            ),
            FilesRouteError::Files(_) => "Internal server error"@,
        }
    }

    /// The response that carries the failure.
    pub fn into_response(self) -> (response: ErrorResponse)
        ensures
            response.status == self.status(),
            response.message@ == self.message(),
    {
        match self {
            FilesRouteError::NotConfigured => ErrorResponse::new(
                SERVICE_UNAVAILABLE,
                "File storage service not available",
            ),
            FilesRouteError::Files(FilesError::InvalidFileType(message)) => ErrorResponse {
                status: BAD_REQUEST,
                message,
            },
            FilesRouteError::Files(FilesError::FileTooLarge(size, max)) => {
                let mut message = String::from_str("File size ");
                let size_text = decimal_text(size);
                message.append(size_text.as_str());
                message.append(" bytes exceeds maximum ");
                let max_text = decimal_text(max);
                message.append(max_text.as_str());
                message.append(" bytes");
                ErrorResponse { status: PAYLOAD_TOO_LARGE, message }
            },
            FilesRouteError::Files(_) => ErrorResponse::new(
                INTERNAL_SERVER_ERROR,
                "Internal server error",
            ),
        }
    }
}

/// Admits an upload of an avatar for a principal, where files are
/// configured, and says where the upload goes.
pub fn create_avatar_upload_url(
    files: Option<&FilesService>,
    user_id: u128,
    payload: &CreateAvatarUploadRequest,
    file_id: u128,
) -> (r: Result<UploadPlan, FilesRouteError>)
    ensures
        r is Ok <==> files is Some && is_allowed_avatar_type(payload.content_type@) && (
        payload.content_length matches Some(size) ==> size <= files->0.max_file_size),
        r matches Ok(plan) ==> plan.object_key@ == avatar_key(user_id, file_id, payload.content_type@)
            && plan.public_url@ == public_url_of(files->0.public_url@, plan.object_key@),
        r matches Err(e) ==> if files is None {
            e == FilesRouteError::NotConfigured
        } else if !is_allowed_avatar_type(payload.content_type@) {
            e matches FilesRouteError::Files(FilesError::InvalidFileType(message)) && message@
                == invalid_type_message(payload.content_type@)
        } else {
            e == FilesRouteError::Files(
                FilesError::FileTooLarge(payload.content_length->0, files->0.max_file_size),
            )
        },
{
    let service = match files {
        Some(service) => service,
        None => {
            return Err(FilesRouteError::NotConfigured);
        },
    };
    match service.plan_avatar_upload(
        user_id,
        payload.content_type.as_str(),
        payload.content_length,
        file_id,
    ) {
        Ok(plan) => Ok(plan),
        Err(e) => Err(FilesRouteError::Files(e)),
    }
}

/// Admits the deletion of an avatar by a principal, where files are
/// configured: only what lies in the principal's own folder.
pub fn delete_avatar(files: Option<&FilesService>, user_id: u128, key: &str) -> (r: Result<
    (),
    FilesRouteError,
>)
    ensures
        r is Ok <==> files is Some && avatar_folder(user_id).is_prefix_of(key@),
        r matches Err(e) ==> if files is None {
            e == FilesRouteError::NotConfigured
        } else {
            e matches FilesRouteError::Files(FilesError::Delete(message)) && message@
                == "Cannot delete files belonging to other users"@
        },
{
    if files.is_none() {
        return Err(FilesRouteError::NotConfigured);
    }
    match may_delete(user_id, key) {
        Ok(()) => Ok(()),
        Err(e) => Err(FilesRouteError::Files(e)),
    }
}

/// What is shown of a stored file.
pub fn to_file_info_response(info: FileInfo) -> (shown: FileInfoResponse)
    ensures
        shown.key == info.key,
        shown.public_url == info.public_url,
        shown.size == info.size,
        shown.last_modified == info.last_modified,
{
    FileInfoResponse {
        key: info.key,
        public_url: info.public_url,
        size: info.size,
        last_modified: info.last_modified,
    }
}

/// Get files configuration
pub fn get_files_config(files: Option<&FilesService>) -> (config: FilesConfigResponse)
    ensures
        config.enabled == files is Some,
        config.max_file_size_bytes == match files {
            Some(service) => Some(service.max_file_size),
            None => None,
        },
        config.allowed_types@.len() == 4,
        forall|i: int|
            0 <= i < 4 ==> is_allowed_avatar_type((#[trigger] config.allowed_types@[i])@),
        config.allowed_types@[0]@ == "image/jpeg"@,
        config.allowed_types@[1]@ == "image/png"@,
        config.allowed_types@[2]@ == "image/gif"@,
        config.allowed_types@[3]@ == "image/webp"@,
{
    let (enabled, max_file_size_bytes) = match files {
        Some(service) => (true, Some(service.max_file_size())),
        None => (false, None),
    };
    let types = allowed_avatar_types();
    let mut allowed_types: Vec<String> = Vec::new();
    let mut i: usize = 0;
    while i < types.len()
        invariant
            i <= types@.len(),
            allowed_types@.len() == i,
            forall|j: int| 0 <= j < i ==> (#[trigger] allowed_types@[j])@ == types@[j]@,
        decreases types@.len() - i,
    {
        allowed_types.push(types[i].to_owned());
        i = i + 1;
    }
    FilesConfigResponse { enabled, max_file_size_bytes, allowed_types }
}

} // verus!
