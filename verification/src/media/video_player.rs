//! Where the engine finds a video.
use vstd::prelude::*;
use vstd::string::*;

verus! {

/// The file of the video `name`: the video directory, the name, then `.wmv`.
pub fn video_file_path(video_path: &str, name: &str) -> (r: String)
    ensures
        r@ == video_path@ + name@ + ".wmv"@,
{
    let dir: String = video_path.to_owned();
    let with_name: String = dir.concat(name);
    with_name.concat(".wmv")
}

} // verus!
