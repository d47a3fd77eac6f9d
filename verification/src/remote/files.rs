//! Avatar files: which uploads are admitted, and where a file lives.
//!
//! The object store itself is reached from outside this crate. What is
//! decided here is what may be uploaded, under which key an upload is
//! stored, at which address it can be read, and whose files a principal may
//! delete.

use vstd::prelude::*;
use vstd::string::StringExecFns;

use crate::ids::{hyphenated, id_text};
use crate::text::{chars_of, text_eq, text_of_chars, without_leading, without_trailing};

verus! {

/// Maximum file size for avatars (5MB default, configurable via env)
pub const DEFAULT_MAX_AVATAR_SIZE: u64 = 5 * 1024 * 1024;

/// The rules of the avatar store: where it is read, how long an upload may
/// take to start, and how large a file may be.
#[derive(Debug, Clone)]
pub struct FilesService {
    pub bucket: String,
    pub public_url: String,
    pub presign_expiry_secs: u64,
    pub max_file_size: u64,
}

/// An upload that the store is ready to take.
#[derive(Debug, Clone)]
pub struct PresignedUpload {
    pub upload_url: String,
    pub object_key: String,
    pub public_url: String,
    pub expires_at: i64,
}

/// A file in the store.
#[derive(Debug, Clone)]
pub struct FileInfo {
    pub key: String,
    pub public_url: String,
    pub size: Option<i64>,
    pub last_modified: Option<i64>,
}

/// Failures of the file operations.
#[derive(Debug, Clone)]
pub enum FilesError {
    PresignConfig(String),
    Presign(String),
    InvalidFileType(String),
    FileTooLarge(u64, u64),
    Delete(String),
    List(String),
}

/// Where an admitted upload is stored and read.
#[derive(Debug, Clone)]
pub struct UploadPlan {
    pub object_key: String,
    pub public_url: String,
}

/// Allowed MIME types for avatar uploads
pub open spec fn is_allowed_avatar_type(content_type: Seq<char>) -> bool {
    ||| content_type == "image/jpeg"@
    ||| content_type == "image/png"@
    ||| content_type == "image/gif"@
    ||| content_type == "image/webp"@
}

/// The extension under which a type of image is stored.
pub open spec fn extension_of(content_type: Seq<char>) -> Seq<char> {
    if content_type == "image/jpeg"@ {
        "jpg"@
    } else if content_type == "image/png"@ {
        "png"@
    } else if content_type == "image/gif"@ {
        "gif"@
    } else if content_type == "image/webp"@ {
        "webp"@
    } else {
        "bin"@
    }
}

/// The folder of a principal's avatars.
pub open spec fn avatar_folder(user_id: u128) -> Seq<char> {
    "avatars/"@ + hyphenated(user_id) + "/"@
}

/// The key under which an avatar is stored.
pub open spec fn avatar_key(user_id: u128, file_id: u128, content_type: Seq<char>) -> Seq<char> {
    avatar_folder(user_id) + hyphenated(file_id) + "."@ + extension_of(content_type)
}

/// The message that tells of a type that is not admitted.
pub open spec fn invalid_type_message(content_type: Seq<char>) -> Seq<char> {
    content_type + " (allowed: image/jpeg, image/png, image/gif, image/webp)"@
}

/// The address at which an object can be read.
pub open spec fn public_url_of(base: Seq<char>, object_key: Seq<char>) -> Seq<char> {
    base + "/"@ + object_key
}

/// The allowed MIME types for avatar uploads.
pub fn allowed_avatar_types() -> (types: Vec<&'static str>)
    ensures
        types@.len() == 4,
        types@[0]@ == "image/jpeg"@,
        types@[1]@ == "image/png"@,
        types@[2]@ == "image/gif"@,
        types@[3]@ == "image/webp"@,
{
    let mut types: Vec<&'static str> = Vec::new();
    types.push("image/jpeg");
    types.push("image/png");
    types.push("image/gif");
    types.push("image/webp");
    types
}

/// The extension under which a type of image is stored.
pub fn extension_for(content_type: &str) -> (extension: &'static str)
    ensures
        extension@ == extension_of(content_type@),
{
    if text_eq(content_type, "image/jpeg") {
        "jpg"
    } else if text_eq(content_type, "image/png") {
        "png"
    } else if text_eq(content_type, "image/gif") {
        "gif"
    } else if text_eq(content_type, "image/webp") {
        "webp"
    } else {
        "bin"
    }
}

/// The folder of a principal's avatars.
pub fn avatar_prefix(user_id: u128) -> (prefix: String)
    ensures
        prefix@ == avatar_folder(user_id),
{
    let mut prefix = String::from_str("avatars/");
    let id = id_text(user_id);
    prefix.append(id.as_str());
    prefix.append("/");
    prefix
}

/// Whether a principal may delete the object: only what lies in its own
/// folder.
pub fn may_delete(user_id: u128, object_key: &str) -> (r: Result<(), FilesError>)
    ensures
        r is Ok <==> avatar_folder(user_id).is_prefix_of(object_key@),
        r matches Err(e) ==> e matches FilesError::Delete(message) && message@
            == "Cannot delete files belonging to other users"@,
{
    let prefix = avatar_prefix(user_id);
    let expected = chars_of(prefix.as_str());
    let given = chars_of(object_key);
    if begins(&given, &expected) {
        Ok(())
    } else {
        Err(FilesError::Delete(String::from_str("Cannot delete files belonging to other users")))
    }
}

fn begins(text: &Vec<char>, prefix: &Vec<char>) -> (b: bool)
    ensures
        b == prefix@.is_prefix_of(text@),
{
    if prefix.len() > text.len() {
        return false;
    }
    let mut i: usize = 0;
    while i < prefix.len()
        invariant
            i <= prefix@.len(),
            prefix@.len() <= text@.len(),
            forall|j: int| 0 <= j < i ==> prefix@[j] == text@[j],
        decreases prefix@.len() - i,
    {
        if prefix[i] != text[i] {
            proof {
                if prefix@.is_prefix_of(text@) {
                    assert(text@.subrange(0, prefix@.len() as int)[i as int] == text@[i as int]);
                }
            }
            return false;
        }
        i = i + 1;
    }
    assert(prefix@ =~= text@.subrange(0, prefix@.len() as int));
    true
}

impl FilesService {
    /// A service for a bucket that is read at `public_url`. Slashes at the
    /// end of the address are dropped.
    pub fn new(bucket: &str, public_url: &str, presign_expiry_secs: u64, max_file_size: u64) -> (service:
        FilesService)
        ensures
            service.bucket@ == bucket@,
            service.public_url@ == without_trailing(public_url@, '/'),
            service.presign_expiry_secs == presign_expiry_secs,
            service.max_file_size == max_file_size,
    {
        let chars = chars_of(public_url);
        let mut end: usize = chars.len();
        assert(chars@.take(chars@.len() as int) == chars@);
        while end > 0 && chars[end - 1] == '/'
            invariant
                end <= chars@.len(),
                without_trailing(chars@, '/') == without_trailing(chars@.take(end as int), '/'),
            decreases end,
        {
            assert(chars@.take(end as int).drop_last() == chars@.take(end - 1));
            end = end - 1;
        }
        proof {
            if end > 0 {
                assert(chars@.take(end as int).last() == chars@[end - 1]);
            }
        }
        let trimmed = text_of_chars(&chars, 0, end);
        assert(chars@.subrange(0, end as int) == chars@.take(end as int));
        FilesService {
            bucket: bucket.to_owned(),
            public_url: trimmed,
            presign_expiry_secs,
            max_file_size,
        }
    }

    /// Validate file type for avatar uploads
    pub fn validate_avatar_type(content_type: &str) -> (r: Result<(), FilesError>)
        ensures
            r is Ok <==> is_allowed_avatar_type(content_type@),
            r matches Err(e) ==> e matches FilesError::InvalidFileType(message) && message@
                == invalid_type_message(content_type@),
    {
        if text_eq(content_type, "image/jpeg") || text_eq(content_type, "image/png") || text_eq(
            content_type,
            "image/gif",
        ) || text_eq(content_type, "image/webp") {
            return Ok(());
        }
        let mut message = content_type.to_owned();
        message.append(" (allowed: image/jpeg, image/png, image/gif, image/webp)");
        Err(FilesError::InvalidFileType(message))
    }

    /// Validate file size
    pub fn validate_file_size(&self, size: u64) -> (r: Result<(), FilesError>)
        ensures
            r is Ok <==> size <= self.max_file_size,
            r matches Err(e) ==> e == FilesError::FileTooLarge(size, self.max_file_size),
    {
        if size > self.max_file_size {
            return Err(FilesError::FileTooLarge(size, self.max_file_size));
        }
        Ok(())
    }

    /// Get the maximum allowed file size
    pub fn max_file_size(&self) -> (max: u64)
        ensures
            max == self.max_file_size,
    {
        self.max_file_size
    }

    /// Admits an upload of an avatar and says where it goes: the type must
    /// be allowed, and the length, where one is given, within the limit.
    pub fn plan_avatar_upload(
        &self,
        user_id: u128,
        content_type: &str,
        content_length: Option<u64>,
        file_id: u128,
    ) -> (r: Result<UploadPlan, FilesError>)
        ensures
            r is Ok <==> is_allowed_avatar_type(content_type@) && (content_length matches Some(size)
                ==> size <= self.max_file_size),
            r matches Ok(plan) ==> plan.object_key@ == avatar_key(user_id, file_id, content_type@)
                && plan.public_url@ == public_url_of(self.public_url@, plan.object_key@),
            r matches Err(e) ==> if !is_allowed_avatar_type(content_type@) {
                e matches FilesError::InvalidFileType(message) && message@ == invalid_type_message(
                    content_type@,
                )
            } else {
                e == FilesError::FileTooLarge(content_length->0, self.max_file_size)
            },
    {
        match FilesService::validate_avatar_type(content_type) {
            Ok(()) => {},
            Err(e) => {
                return Err(e);
            },
        }
        match content_length {
            Some(size) => match self.validate_file_size(size) {
                Ok(()) => {},
                Err(e) => {
                    return Err(e);
                },
            },
            None => {},
        }
        let mut object_key = avatar_prefix(user_id);
        let file = id_text(file_id);
        object_key.append(file.as_str());
        object_key.append(".");
        object_key.append(extension_for(content_type));
        let public_url = self.get_public_url(object_key.as_str());
        Ok(UploadPlan { object_key, public_url })
    }

    /// Get the public URL for an object key
    pub fn get_public_url(&self, object_key: &str) -> (url: String)
        ensures
            url@ == public_url_of(self.public_url@, object_key@),
    {
        let mut url = self.public_url.clone();
        url.append("/");
        url.append(object_key);
        url
    }

    /// Extract the object key from a public URL: what follows the service's
    /// address, without the slashes at its start.
    pub fn extract_object_key(&self, public_url: &str) -> (key: Option<String>)
        ensures
            key is Some <==> self.public_url@.is_prefix_of(public_url@),
            key matches Some(k) ==> k@ == without_leading(
                public_url@.skip(self.public_url@.len() as int),
                '/',
            ),
    {
        let base = chars_of(self.public_url.as_str());
        let given = chars_of(public_url);
        if !begins(&given, &base) {
            return None;
        }
        let mut start: usize = base.len();
        while start < given.len() && given[start] == '/'
            invariant
                base@.len() <= start <= given@.len(),
                without_leading(given@.skip(base@.len() as int), '/') == without_leading(
                    given@.skip(start as int),
                    '/',
                ),
            decreases given@.len() - start,
        {
            assert(given@.skip(start as int).drop_first() == given@.skip(start + 1));
            start = start + 1;
        }
        proof {
            if start < given@.len() {
                assert(given@.skip(start as int).first() == given@[start as int]);
            }
            assert(given@.subrange(start as int, given@.len() as int) == given@.skip(start as int));
        }
        Some(text_of_chars(&given, start, given.len()))
    }
}

} // verus!
