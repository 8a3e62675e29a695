use vstd::prelude::*;

use crate::text::{decimal, decimal_of};

verus! {

/// Path of a cached file: `<cache_root>/<folder>/<id>.jpg`.
pub open spec fn cache_file_path(cache_root: Seq<char>, folder: Seq<char>, image_id: i64) -> Seq<char> {
    cache_root + seq!['/'] + folder + seq!['/'] + decimal_of(image_id as int) + seq![
        '.',
        'j',
        'p',
        'g',
    ]
}

fn cache_file(cache_root: &str, folder: &str, image_id: i64) -> (r: String)
    ensures
        r@ == cache_file_path(cache_root@, folder@, image_id),
{
    let mut r = String::from_str(cache_root);
    r.append("/");
    r.append(folder);
    r.append("/");
    let id = decimal(image_id);
    r.append(id.as_str());
    r.append(".jpg");
    proof {
        reveal_strlit("/");
        reveal_strlit(".jpg");
    }
    assert(r@ =~= cache_file_path(cache_root@, folder@, image_id));
    r
}

/// Where the thumbnail of an image is cached: `<cache_root>/thumbs/<id>.jpg`.
pub fn thumbnail_path(cache_root: &str, image_id: i64) -> (r: String)
    ensures
        r@ == cache_file_path(cache_root@, "thumbs"@, image_id),
{
    cache_file(cache_root, "thumbs", image_id)
}

/// Where the display preview of an image is cached: `<cache_root>/previews/<id>.jpg`.
pub fn preview_path(cache_root: &str, image_id: i64) -> (r: String)
    ensures
        r@ == cache_file_path(cache_root@, "previews"@, image_id),
{
    cache_file(cache_root, "previews", image_id)
}

} // verus!
