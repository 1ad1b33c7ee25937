//! Under which name an encoded animation is stored.

use crate::pixiv::types::IllustId;
use crate::text::{
    decimal, is_digit, lemma_decimal_injective, lemma_decimal_value, push_decimal,
};
use vstd::prelude::*;
use vstd::string::StringExecFns;

verus! {

/// An output format's part of the file name.
pub trait SaveParams {
    /// The extension of files in the format, without the dot.
    spec fn extension(&self) -> Seq<char>;

    /// The extension of files in the format, without the dot.
    fn get_extension(&self) -> (ext: &'static str)
        ensures
            ext@ == self.extension(),
    ;
}

/// Lossless video in a WebM container.
#[derive(Clone, Copy, Debug)]
pub struct WebmParams;

/// A looping GIF.
#[derive(Clone, Copy, Debug)]
pub struct GifParams;

impl SaveParams for WebmParams {
    open spec fn extension(&self) -> Seq<char> {
        "webm"@
    }

    fn get_extension(&self) -> (ext: &'static str) {
        "webm"
    }
}

impl SaveParams for GifParams {
    open spec fn extension(&self) -> Seq<char> {
        "gif"@
    }

    fn get_extension(&self) -> (ext: &'static str) {
        "gif"
    }
}

/// The file name for the illustration `id` in a format with the extension
/// `extension`: the identifier in decimal, a dot, the extension.
pub open spec fn file_name_text(id: IllustId, extension: Seq<char>) -> Seq<char> {
    decimal(id.0 as nat) + seq!['.'] + extension
}

/// What is written, and under which name inside the output directory.
#[derive(Debug)]
pub struct SavePlan {
    pub file_name: String,
    pub data: Vec<u8>,
}

/// Stores one encoded animation.
#[derive(Debug)]
pub struct UgoiraSaver<P: SaveParams> {
    pub illust_id: IllustId,
    pub data: Vec<u8>,
    pub params: P,
}

impl<P: SaveParams> UgoiraSaver<P> {
    /// A saver for the encoded animation `data` of the illustration
    /// `illust_id`.
    pub fn new(illust_id: IllustId, data: Vec<u8>, params: P) -> (saver: Self)
        ensures
            saver.illust_id == illust_id,
            saver.data == data,
            saver.params == params,
    {
        UgoiraSaver { illust_id, data, params }
    }

    /// The name of the file inside the output directory.
    pub fn file_name(&self) -> (name: String)
        ensures
            name@ == file_name_text(self.illust_id, self.params.extension()),
    {
        let mut name = String::new();
        push_decimal(&mut name, self.illust_id.0 as u64);
        name.append(".");
        name.append(self.params.get_extension());
        proof {
            reveal_strlit(".");
            assert("."@ =~= seq!['.']);
            assert(name@ =~= file_name_text(self.illust_id, self.params.extension()));
        }
        name
    }

    /// The file to write: the animation, unchanged, under the name that its
    /// own identifier gives it. An existing file of that name is replaced.
    pub fn into(self) -> (plan: SavePlan)
        ensures
            plan.file_name@ == file_name_text(self.illust_id, self.params.extension()),
            plan.data == self.data,
    {
        let file_name = self.file_name();
        SavePlan { file_name, data: self.data }
    }
}

/// Files of different illustrations never share a name, whatever the
/// format: writers working at the same time cannot overwrite each other.
pub proof fn lemma_file_names_distinct(a: IllustId, b: IllustId, extension: Seq<char>)
    requires
        file_name_text(a, extension) == file_name_text(b, extension),
    ensures
        a == b,
{
    let da = decimal(a.0 as nat);
    let db = decimal(b.0 as nat);
    let na = file_name_text(a, extension);
    let nb = file_name_text(b, extension);
    lemma_decimal_value(a.0 as nat);
    lemma_decimal_value(b.0 as nat);
    assert(!is_digit('.'));
    if da.len() < db.len() {
        assert(na[da.len() as int] == '.');
        assert(nb[da.len() as int] == db[da.len() as int]);
        assert(is_digit(db[da.len() as int]));
    } else if db.len() < da.len() {
        assert(nb[db.len() as int] == '.');
        assert(na[db.len() as int] == da[db.len() as int]);
        assert(is_digit(da[db.len() as int]));
    }
    assert(da.len() == db.len());
    assert(da =~= db) by {
        assert forall|i: int| 0 <= i < da.len() implies da[i] == db[i] by {
            assert(na[i] == da[i]);
            assert(nb[i] == db[i]);
        }
    }
    lemma_decimal_injective(a.0 as nat, b.0 as nat);
}

} // verus!
