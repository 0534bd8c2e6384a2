//! Comments as a reader sees them: each with its author's names and the
//! address of the author's avatar picture.

use vstd::prelude::*;
use vstd::utf8::encode_utf8;
use crate::foreign::md5_hex;
use crate::foreign::md5_hex_of;
use crate::foreign::percent_encode_text;
use crate::foreign::percent_encoded;
use crate::foreign::replace_char;
use crate::foreign::replaced;
use crate::foreign::seahash_bytes;
use crate::foreign::seahash_of;
use crate::models::User;
use crate::models::UserRow;
use crate::models::texts;
use crate::state::FeedRow;
use crate::store::SingleCommentQueryResult;

verus! {

/// The address of an avatar picture. Without a digest of an e-mail
/// address it is a picture drawn from the display name on the given
/// colour. With one it is the picture registered for the address, with
/// the drawn picture as the fallback: that address travels as a
/// parameter, so its `%` signs are encoded once more.
pub open spec fn avatar_url_text(
    display_name_encoded: Seq<char>,
    color: Seq<char>,
    email_digest: Option<Seq<char>>,
) -> Seq<char> {
    match email_digest {
        Some(digest) => "https://www.gravatar.com/avatar/"@ + digest
            + "?d=https%3A%2F%2Fui-avatars.com%2Fapi%2F"@ + replaced(
            display_name_encoded,
            '%',
            "%25"@,
        ) + "%2F128%2F"@ + color + "%2Fffffff"@,
        None => "https://ui-avatars.com/api/"@ + display_name_encoded + "/128/"@ + color
            + "/ffffff"@,
    }
}

/// The digest text behind an optional string.
pub open spec fn digest_text(digest: Option<String>) -> Option<Seq<char>> {
    match digest {
        Some(d) => Some(d@),
        None => None,
    }
}

/// Writes the address of an avatar picture from its parts.
pub fn build_avatar_url(display_name_encoded: &str, color: &str, email_digest: &Option<String>) -> (url:
    String)
    ensures
        url@ == avatar_url_text(display_name_encoded@, color@, digest_text(*email_digest)),
{
    match email_digest {
        Some(digest) => {
            let twice = replace_char(display_name_encoded, '%', "%25");
            let mut url = String::from_str("https://www.gravatar.com/avatar/");
            url.append(digest.as_str());
            url.append("?d=https%3A%2F%2Fui-avatars.com%2Fapi%2F");
            url.append(twice.as_str());
            url.append("%2F128%2F");
            url.append(color);
            url.append("%2Fffffff");
            url
        },
        None => {
            let mut url = String::from_str("https://ui-avatars.com/api/");
            url.append(display_name_encoded);
            url.append("/128/");
            url.append(color);
            url.append("/ffffff");
            url
        },
    }
}

/// Which colour of a palette a user name gets: its hash, modulo the
/// number of colours.
pub open spec fn color_index(user_name: Seq<char>, colors: nat) -> int {
    seahash_of(encode_utf8(user_name)) as int % colors as int
}

/// The address of a user's avatar picture, on the colour that the
/// palette holds for the user name.
pub open spec fn avatar_of(user: UserRow, palette: Seq<Seq<char>>) -> Seq<char> {
    avatar_url_text(
        percent_encoded(user.display_name),
        palette[color_index(user.user_name, palette.len())],
        match user.email {
            Some(address) => Some(md5_hex_of(encode_utf8(address))),
            None => None,
        },
    )
}

/// The address of a user's avatar picture. The palette must hold a
/// colour.
pub fn get_user_avatar_url(user: &User, palette: &Vec<String>) -> (url: String)
    requires
        palette@.len() > 0,
    ensures
        url@ == avatar_of(user@, texts(palette@)),
{
    let display_name_encoded = percent_encode_text(user.display_name.as_str());
    let hash = seahash_bytes(user.user_name.as_str().as_bytes());
    let index: usize = (hash % (palette.len() as u64)) as usize;
    let digest = match &user.email {
        Some(address) => Some(md5_hex(address.as_str().as_bytes())),
        None => None,
    };
    build_avatar_url(display_name_encoded.as_str(), palette[index].as_str(), &digest)
}

/// The author of a comment, as a reader sees them.
#[derive(Debug)]
pub struct SingleUserResponse {
    pub avatar_url: String,
    pub user_name: String,
    pub display_name: String,
}

/// A comment, as a reader sees it.
#[derive(Debug)]
pub struct SingleCommentResponse {
    pub body: String,
    pub create_timestamp: i64,
    pub update_timestamp: i64,
    pub relative_path: String,
    pub id: i64,
    pub user: SingleUserResponse,
}

/// What a [`SingleCommentResponse`] holds, as plain values.
pub struct ResponseRow {
    pub body: Seq<char>,
    pub create_timestamp: i64,
    pub update_timestamp: i64,
    pub relative_path: Seq<char>,
    pub id: i64,
    pub avatar_url: Seq<char>,
    pub user_name: Seq<char>,
    pub display_name: Seq<char>,
}

impl View for SingleCommentResponse {
    type V = ResponseRow;

    open spec fn view(&self) -> ResponseRow {
        ResponseRow {
            body: self.body@,
            create_timestamp: self.create_timestamp,
            update_timestamp: self.update_timestamp,
            relative_path: self.relative_path@,
            id: self.id,
            avatar_url: self.user.avatar_url@,
            user_name: self.user.user_name@,
            display_name: self.user.display_name@,
        }
    }
}

/// The response that shows a comment with its path and author.
pub open spec fn response_of(row: FeedRow, palette: Seq<Seq<char>>) -> ResponseRow {
    ResponseRow {
        body: row.comment.content,
        create_timestamp: row.comment.create_timestamp,
        update_timestamp: row.comment.update_timestamp,
        relative_path: row.relative_path,
        id: row.comment.id,
        avatar_url: avatar_of(row.user, palette),
        user_name: row.user.user_name,
        display_name: row.user.display_name,
    }
}

/// The values behind a list of responses.
pub open spec fn response_rows(v: Seq<SingleCommentResponse>) -> Seq<ResponseRow> {
    Seq::new(v.len(), |i: int| v[i]@)
}

/// Turns comments with their paths and authors into what a reader sees,
/// one for one and in the same order.
pub fn convert_comment_query_results_to_response(
    comment_query_result: Vec<SingleCommentQueryResult>,
    palette: &Vec<String>,
) -> (out: Vec<SingleCommentResponse>)
    requires
        palette@.len() > 0,
    ensures
        out@.len() == comment_query_result@.len(),
        forall|i: int|
            0 <= i < out@.len() ==> (#[trigger] out@[i])@ == response_of(
                comment_query_result@[i]@,
                texts(palette@),
            ),
{
    let mut out: Vec<SingleCommentResponse> = Vec::new();
    let mut i: usize = 0;
    while i < comment_query_result.len()
        invariant
            i <= comment_query_result.len(),
            palette@.len() > 0,
            out@.len() == i,
            forall|j: int|
                0 <= j < i ==> (#[trigger] out@[j])@ == response_of(
                    comment_query_result@[j]@,
                    texts(palette@),
                ),
        decreases comment_query_result.len() - i,
    {
        let row = &comment_query_result[i];
        out.push(
            SingleCommentResponse {
                body: row.comment.content.clone(),
                create_timestamp: row.comment.create_timestamp,
                update_timestamp: row.comment.update_timestamp,
                relative_path: row.relative_path.clone(),
                id: row.comment.id,
                user: SingleUserResponse {
                    avatar_url: get_user_avatar_url(&row.user, palette),
                    user_name: row.user.user_name.clone(),
                    display_name: row.user.display_name.clone(),
                },
            },
        );
        i += 1;
    }
    out
}

} // verus!
