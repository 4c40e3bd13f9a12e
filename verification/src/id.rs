//! Catalog identifiers and the sharded file layout they determine.
//! An identifier `id` lives in shard `id / 100`, bounding every
//! directory to about one hundred entries.

use vstd::prelude::*;
use crate::text::{dec_int, lemma_dec_int_no_slash, push_decimal_i64};

verus! {

#[derive(Clone, Copy, Debug, PartialEq, Eq, Structural)]
pub struct Id(pub i64);

/// The shard bucket of an identifier: the integer quotient by 100,
/// rounded toward zero as the machine division rounds.
pub open spec fn spec_shard(id: i64) -> int {
    if id >= 0 {
        id as int / 100
    } else {
        -((-(id as int)) / 100)
    }
}

pub open spec fn spec_temp_dir(id: i64, base: Seq<char>) -> Seq<char> {
    base.add("/temp/"@).add(dec_int(id as int)).add("/"@)
}

pub open spec fn spec_temp_path(id: i64, base: Seq<char>) -> Seq<char> {
    spec_temp_dir(id, base).add("pass_1.mp4"@)
}

pub open spec fn spec_text_path(id: i64, base: Seq<char>) -> Seq<char> {
    spec_temp_dir(id, base).add("pass_1.txt"@)
}

pub open spec fn spec_srt_path(id: i64, base: Seq<char>) -> Seq<char> {
    spec_temp_dir(id, base).add("pass_1.srt"@)
}

pub open spec fn spec_data_dir(id: i64, base: Seq<char>) -> Seq<char> {
    base.add("/data/"@).add(dec_int(spec_shard(id))).add("/"@)
}

pub open spec fn spec_data_name(id: i64) -> Seq<char> {
    dec_int(id as int).add(".mp4"@)
}

pub open spec fn spec_data_path(id: i64, base: Seq<char>) -> Seq<char> {
    spec_data_dir(id, base).add(spec_data_name(id))
}

pub open spec fn spec_subs_dir(id: i64, base: Seq<char>) -> Seq<char> {
    base.add("/subs/"@).add(dec_int(spec_shard(id))).add("/"@)
}

pub open spec fn spec_srt_name(id: i64) -> Seq<char> {
    dec_int(id as int).add(".srt"@)
}

pub open spec fn spec_srt_out(id: i64, base: Seq<char>) -> Seq<char> {
    spec_subs_dir(id, base).add(spec_srt_name(id))
}

pub open spec fn spec_meta_dir(id: i64, base: Seq<char>) -> Seq<char> {
    base.add("/meta/"@).add(dec_int(spec_shard(id))).add("/"@)
}

pub open spec fn spec_meta_name(id: i64) -> Seq<char> {
    dec_int(id as int).add(".json"@)
}

pub open spec fn spec_meta_path(id: i64, base: Seq<char>) -> Seq<char> {
    spec_meta_dir(id, base).add(spec_meta_name(id))
}

impl Id {
    pub fn get(&self) -> (r: i64)
        ensures
            r == self.0,
    {
        self.0
    }

    /// The identifier's shard bucket.
    pub fn shard(&self) -> (r: i64)
        ensures
            r == spec_shard(self.0),
    {
        if self.0 >= 0 {
            self.0 / 100
        } else {
            let m: u64 = ((-(self.0 + 1)) as u64) + 1;
            let q = m / 100;
            -(q as i64)
        }
    }

    /// The working directory for in-flight artifacts of this item.
    pub fn temp_dir(&self, base: &str) -> (r: String)
        ensures
            r@ == spec_temp_dir(self.0, base@),
    {
        let mut s = base.to_owned();
        s.append("/temp/");
        push_decimal_i64(&mut s, self.0);
        s.append("/");
        s
    }

    /// The temporary clip file the clipping tool writes.
    pub fn temp_path(&self, base: &str) -> (r: String)
        ensures
            r@ == spec_temp_path(self.0, base@),
    {
        let mut s = self.temp_dir(base);
        s.append("pass_1.mp4");
        s
    }

    /// The transcript text file the transcription tool leaves behind.
    pub fn text_path(&self, base: &str) -> (r: String)
        ensures
            r@ == spec_text_path(self.0, base@),
    {
        let mut s = self.temp_dir(base);
        s.append("pass_1.txt");
        s
    }

    /// The temporary subtitle file the transcription tool leaves.
    pub fn srt_path(&self, base: &str) -> (r: String)
        ensures
            r@ == spec_srt_path(self.0, base@),
    {
        let mut s = self.temp_dir(base);
        s.append("pass_1.srt");
        s
    }

    /// The permanent clip path, under the identifier's shard.
    pub fn data_path(&self, base: &str) -> (r: String)
        ensures
            r@ == spec_data_path(self.0, base@),
    {
        let mut s = base.to_owned();
        s.append("/data/");
        push_decimal_i64(&mut s, self.shard());
        s.append("/");
        push_decimal_i64(&mut s, self.0);
        s.append(".mp4");
        s
    }

    /// The permanent subtitle path, under the identifier's shard.
    pub fn srt_out(&self, base: &str) -> (r: String)
        ensures
            r@ == spec_srt_out(self.0, base@),
    {
        let mut s = base.to_owned();
        s.append("/subs/");
        push_decimal_i64(&mut s, self.shard());
        s.append("/");
        push_decimal_i64(&mut s, self.0);
        s.append(".srt");
        s
    }

    /// The metadata sidecar path, under the identifier's shard.
    pub fn meta_path(&self, base: &str) -> (r: String)
        ensures
            r@ == spec_meta_path(self.0, base@),
    {
        let mut s = base.to_owned();
        s.append("/meta/");
        push_decimal_i64(&mut s, self.shard());
        s.append("/");
        push_decimal_i64(&mut s, self.0);
        s.append(".json");
        s
    }
}

/// Every permanent path lies directly under its shard's directory:
/// the path is the shard directory followed by a file name that holds
/// no path separator, so the file always resolves inside that shard.
pub proof fn lemma_data_path_under_shard(id: i64, base: Seq<char>)
    ensures
        spec_data_path(id, base) == spec_data_dir(id, base).add(spec_data_name(id)),
        forall|i: int|
            0 <= i < spec_data_name(id).len() ==> #[trigger] spec_data_name(id)[i] != '/',
{
    reveal_strlit(".mp4");
    lemma_dec_int_no_slash(id as int);
    assert forall|i: int| 0 <= i < spec_data_name(id).len() implies #[trigger] spec_data_name(
        id,
    )[i] != '/' by {
        let d = dec_int(id as int);
        if i < d.len() {
            assert(spec_data_name(id)[i] == d[i]);
        } else {
            assert(spec_data_name(id)[i] == ".mp4"@[i - d.len()]);
        }
    }
}

} // verus!
