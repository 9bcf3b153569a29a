//! Recognizing container entries: which archive entries are embedded media,
//! and which file names carry the expected container extension.

use vstd::prelude::*;

verus! {

/// The path prefix under which a container stores embedded media:
/// the bytes of `word/media`.
pub open spec fn spec_media_prefix() -> Seq<u8> {
    seq![119u8, 111u8, 114u8, 100u8, 47u8, 109u8, 101u8, 100u8, 105u8, 97u8]
}

/// Whether an entry name designates embedded media: it starts with
/// [`spec_media_prefix`].
pub open spec fn is_media_name(name: Seq<u8>) -> bool {
    name.len() >= 10 && name.subrange(0, 10) == spec_media_prefix()
}

/// The container extension expected of an input file: the bytes of `.docx`.
pub open spec fn spec_container_suffix() -> Seq<u8> {
    seq![46u8, 100u8, 111u8, 99u8, 120u8]
}

/// Whether a path ends with [`spec_container_suffix`].
pub open spec fn is_container_name(name: Seq<u8>) -> bool {
    name.len() >= 5 && name.subrange(name.len() - 5, name.len() as int) == spec_container_suffix()
}

/// Decides whether an archive entry holds embedded media.
pub fn is_media_entry(name: &Vec<u8>) -> (r: bool)
    ensures
        r == is_media_name(name@),
{
    proof {
        assert(spec_media_prefix()[0] == 119u8);
        assert(spec_media_prefix()[1] == 111u8);
        assert(spec_media_prefix()[2] == 114u8);
        assert(spec_media_prefix()[3] == 100u8);
        assert(spec_media_prefix()[4] == 47u8);
        assert(spec_media_prefix()[5] == 109u8);
        assert(spec_media_prefix()[6] == 101u8);
        assert(spec_media_prefix()[7] == 100u8);
        assert(spec_media_prefix()[8] == 105u8);
        assert(spec_media_prefix()[9] == 97u8);
    }
    if name.len() < 10 {
        return false;
    }
    let ok = name[0] == 119u8 && name[1] == 111u8 && name[2] == 114u8 && name[3] == 100u8
        && name[4] == 47u8 && name[5] == 109u8 && name[6] == 101u8 && name[7] == 100u8 && name[8]
        == 105u8 && name[9] == 97u8;
    proof {
        let pre = name@.subrange(0, 10);
        assert(forall|k: int| 0 <= k < 10 ==> pre[k] == name@[k]);
        if ok {
            assert(pre =~= spec_media_prefix());
        } else {
            if pre == spec_media_prefix() {
                assert(name@[0] == pre[0]);
                assert(name@[1] == pre[1]);
                assert(name@[2] == pre[2]);
                assert(name@[3] == pre[3]);
                assert(name@[4] == pre[4]);
                assert(name@[5] == pre[5]);
                assert(name@[6] == pre[6]);
                assert(name@[7] == pre[7]);
                assert(name@[8] == pre[8]);
                assert(name@[9] == pre[9]);
                assert(false);
            }
        }
    }
    ok
}

/// Decides whether a path carries the expected container extension.
pub fn has_container_extension(name: &Vec<u8>) -> (r: bool)
    ensures
        r == is_container_name(name@),
{
    proof {
        assert(spec_container_suffix()[0] == 46u8);
        assert(spec_container_suffix()[1] == 100u8);
        assert(spec_container_suffix()[2] == 111u8);
        assert(spec_container_suffix()[3] == 99u8);
        assert(spec_container_suffix()[4] == 120u8);
    }
    let n = name.len();
    if n < 5 {
        return false;
    }
    let ok = name[n - 5] == 46u8 && name[n - 4] == 100u8 && name[n - 3] == 111u8 && name[n - 2]
        == 99u8 && name[n - 1] == 120u8;
    proof {
        let suf = name@.subrange(n as int - 5, n as int);
        assert(forall|k: int| 0 <= k < 5 ==> suf[k] == name@[n - 5 + k]);
        if ok {
            assert(suf =~= spec_container_suffix());
        } else {
            if suf == spec_container_suffix() {
                assert(name@[n - 5] == suf[0]);
                assert(name@[n - 4] == suf[1]);
                assert(name@[n - 3] == suf[2]);
                assert(name@[n - 2] == suf[3]);
                assert(name@[n - 1] == suf[4]);
                assert(false);
            }
        }
    }
    ok
}

} // verus!
