//! Readers and writers for the layouts that payloads have.

use super::body::Body;
use super::name::{
    lemma_files_entry_len, lemma_files_prefix_len, lemma_files_push, spec_file_views, spec_files,
    spec_read_files, File, FileView,
};
use super::status::StatusType;
use crate::common::FileAttributes;
use crate::number::{be_u32, be_u64, lemma_concat_assoc, put_u32, put_u64, spec_be_u32};
use crate::util::{
    parse_string, parse_u8_vec, parse_uuid, serialize_uuid, str_with_u32_length,
    vec_u8_as_slice, vec_with_u32_length,
};
use vstd::prelude::*;
use vstd::utf8::encode_utf8;

verus! {

/// Reads a handshake: a version, then data to the end.
pub fn parse_handshake(i: &[u8]) -> (r: Option<(u32, Vec<u8>)>)
    ensures
        match r {
            Some((version, extension_data)) => Body::spec_parse_handshake(i@) == Some(
                Body::Handshake { version, extension_data: extension_data@ },
            ),
            None => Body::spec_parse_handshake(i@) is None,
        },
{
    let (i, version) = be_u32(i)?;
    let extension_data = vstd::slice::slice_to_vec(i);
    Some((version, extension_data))
}

/// Appends a payload of layout `Handshake` to `out`.
pub fn put_handshake(out: &mut Vec<u8>, version: u32, extension_data: &Vec<u8>)
    ensures
        final(out)@ == old(out)@ + (Body::Handshake {
            version,
            extension_data: extension_data@,
        }).spec_serialize(),
{
    put_u32(out, version);
    vec_u8_as_slice(extension_data, out);
    assert(out@ =~= old(out)@ + (Body::Handshake {
        version,
        extension_data: extension_data@,
    }).spec_serialize());
}

/// Reads a request to open a file.
pub fn parse_open(i: &[u8]) -> (r: Option<(u32, String, u32, FileAttributes)>)
    ensures
        match r {
            Some((id, path, pflags, attrs)) => Body::spec_parse_open(i@) == Some(
                Body::Open { id, path: path@, pflags, attrs },
            ),
            None => Body::spec_parse_open(i@) is None,
        },
{
    let (i, id) = be_u32(i)?;
    let (i, path) = parse_string(i)?;
    let (i, pflags) = be_u32(i)?;
    let (i, attrs) = FileAttributes::parse(i)?;
    if i.len() != 0 {
        return None;
    }
    Some((id, path, pflags, attrs))
}

/// Appends a payload of layout `Open` to `out`.
pub fn put_open(out: &mut Vec<u8>, id: u32, path: &str, pflags: u32, attrs: &FileAttributes)
    requires
        encode_utf8(path@).len() <= u32::MAX,
    ensures
        final(out)@ == old(out)@ + (Body::Open {
            id,
            path: path@,
            pflags,
            attrs: *attrs,
        }).spec_serialize(),
{
    put_u32(out, id);
    str_with_u32_length(path, out);
    put_u32(out, pflags);
    attrs.serialize(out);
    assert(out@ =~= old(out)@ + (Body::Open {
        id,
        path: path@,
        pflags,
        attrs: *attrs,
    }).spec_serialize());
}

/// Reads a request id and a handle.
pub fn parse_handle(i: &[u8]) -> (r: Option<(u32, u128)>)
    ensures
        match r {
            Some((id, handle)) => Body::spec_parse_handle(i@) == Some(Body::Handle { id, handle }),
            None => Body::spec_parse_handle(i@) is None,
        },
{
    let (i, id) = be_u32(i)?;
    let (i, handle) = parse_uuid(i)?;
    if i.len() != 0 {
        return None;
    }
    Some((id, handle))
}

/// Appends a payload of layout `Handle` to `out`.
pub fn put_handle(out: &mut Vec<u8>, id: u32, handle: u128)
    ensures
        final(out)@ == old(out)@ + (Body::Handle { id, handle }).spec_serialize(),
{
    put_u32(out, id);
    serialize_uuid(handle, out);
    assert(out@ =~= old(out)@ + (Body::Handle { id, handle }).spec_serialize());
}

/// Reads a request to read.
pub fn parse_read(i: &[u8]) -> (r: Option<(u32, u128, u64, u32)>)
    ensures
        match r {
            Some((id, handle, offset, len)) => Body::spec_parse_read(i@) == Some(
                Body::Read { id, handle, offset, len },
            ),
            None => Body::spec_parse_read(i@) is None,
        },
{
    let (i, id) = be_u32(i)?;
    let (i, handle) = parse_uuid(i)?;
    let (i, offset) = be_u64(i)?;
    let (i, len) = be_u32(i)?;
    if i.len() != 0 {
        return None;
    }
    Some((id, handle, offset, len))
}

/// Appends a payload of layout `Read` to `out`.
pub fn put_read(out: &mut Vec<u8>, id: u32, handle: u128, offset: u64, len: u32)
    ensures
        final(out)@ == old(out)@ + (Body::Read { id, handle, offset, len }).spec_serialize(),
{
    put_u32(out, id);
    serialize_uuid(handle, out);
    put_u64(out, offset);
    put_u32(out, len);
    assert(out@ =~= old(out)@ + (Body::Read { id, handle, offset, len }).spec_serialize());
}

/// Reads a request to write.
pub fn parse_write(i: &[u8]) -> (r: Option<(u32, u128, u64, Vec<u8>)>)
    ensures
        match r {
            Some((id, handle, offset, data)) => Body::spec_parse_write(i@) == Some(
                Body::Write { id, handle, offset, data: data@ },
            ),
            None => Body::spec_parse_write(i@) is None,
        },
{
    let (i, id) = be_u32(i)?;
    let (i, handle) = parse_uuid(i)?;
    let (i, offset) = be_u64(i)?;
    let (i, data) = parse_u8_vec(i)?;
    if i.len() != 0 {
        return None;
    }
    Some((id, handle, offset, data))
}

/// Appends a payload of layout `Write` to `out`.
pub fn put_write(out: &mut Vec<u8>, id: u32, handle: u128, offset: u64, data: &Vec<u8>)
    requires
        data@.len() <= u32::MAX,
    ensures
        final(out)@ == old(out)@ + (Body::Write {
            id,
            handle,
            offset,
            data: data@,
        }).spec_serialize(),
{
    put_u32(out, id);
    serialize_uuid(handle, out);
    put_u64(out, offset);
    vec_with_u32_length(data, out);
    assert(out@ =~= old(out)@ + (Body::Write {
        id,
        handle,
        offset,
        data: data@,
    }).spec_serialize());
}

/// Reads a request id and a path.
pub fn parse_path(i: &[u8]) -> (r: Option<(u32, String)>)
    ensures
        match r {
            Some((id, path)) => Body::spec_parse_path(i@) == Some(Body::Path { id, path: path@ }),
            None => Body::spec_parse_path(i@) is None,
        },
{
    let (i, id) = be_u32(i)?;
    let (i, path) = parse_string(i)?;
    if i.len() != 0 {
        return None;
    }
    Some((id, path))
}

/// Appends a payload of layout `Path` to `out`.
pub fn put_path(out: &mut Vec<u8>, id: u32, path: &str)
    requires
        encode_utf8(path@).len() <= u32::MAX,
    ensures
        final(out)@ == old(out)@ + (Body::Path { id, path: path@ }).spec_serialize(),
{
    put_u32(out, id);
    str_with_u32_length(path, out);
    assert(out@ =~= old(out)@ + (Body::Path { id, path: path@ }).spec_serialize());
}

/// Reads a request id, a path and attributes.
pub fn parse_path_attrs(i: &[u8]) -> (r: Option<(u32, String, FileAttributes)>)
    ensures
        match r {
            Some((id, path, attrs)) => Body::spec_parse_path_attrs(i@) == Some(
                Body::PathAttrs { id, path: path@, attrs },
            ),
            None => Body::spec_parse_path_attrs(i@) is None,
        },
{
    let (i, id) = be_u32(i)?;
    let (i, path) = parse_string(i)?;
    let (i, attrs) = FileAttributes::parse(i)?;
    if i.len() != 0 {
        return None;
    }
    Some((id, path, attrs))
}

/// Appends a payload of layout `PathAttrs` to `out`.
pub fn put_path_attrs(out: &mut Vec<u8>, id: u32, path: &str, attrs: &FileAttributes)
    requires
        encode_utf8(path@).len() <= u32::MAX,
    ensures
        final(out)@ == old(out)@ + (Body::PathAttrs {
            id,
            path: path@,
            attrs: *attrs,
        }).spec_serialize(),
{
    put_u32(out, id);
    str_with_u32_length(path, out);
    attrs.serialize(out);
    assert(out@ =~= old(out)@ + (Body::PathAttrs {
        id,
        path: path@,
        attrs: *attrs,
    }).spec_serialize());
}

/// Reads a request id, a handle and attributes.
pub fn parse_handle_attrs(i: &[u8]) -> (r: Option<(u32, u128, FileAttributes)>)
    ensures
        match r {
            Some((id, handle, attrs)) => Body::spec_parse_handle_attrs(i@) == Some(
                Body::HandleAttrs { id, handle, attrs },
            ),
            None => Body::spec_parse_handle_attrs(i@) is None,
        },
{
    let (i, id) = be_u32(i)?;
    let (i, handle) = parse_uuid(i)?;
    let (i, attrs) = FileAttributes::parse(i)?;
    if i.len() != 0 {
        return None;
    }
    Some((id, handle, attrs))
}

/// Appends a payload of layout `HandleAttrs` to `out`.
pub fn put_handle_attrs(out: &mut Vec<u8>, id: u32, handle: u128, attrs: &FileAttributes)
    ensures
        final(out)@ == old(out)@ + (Body::HandleAttrs {
            id,
            handle,
            attrs: *attrs,
        }).spec_serialize(),
{
    put_u32(out, id);
    serialize_uuid(handle, out);
    attrs.serialize(out);
    assert(out@ =~= old(out)@ + (Body::HandleAttrs {
        id,
        handle,
        attrs: *attrs,
    }).spec_serialize());
}

/// Reads a request id and two paths.
pub fn parse_two_paths(i: &[u8]) -> (r: Option<(u32, String, String)>)
    ensures
        match r {
            Some((id, first, second)) => Body::spec_parse_two_paths(i@) == Some(
                Body::TwoPaths { id, first: first@, second: second@ },
            ),
            None => Body::spec_parse_two_paths(i@) is None,
        },
{
    let (i, id) = be_u32(i)?;
    let (i, first) = parse_string(i)?;
    let (i, second) = parse_string(i)?;
    if i.len() != 0 {
        return None;
    }
    Some((id, first, second))
}

/// Appends a payload of layout `TwoPaths` to `out`.
pub fn put_two_paths(out: &mut Vec<u8>, id: u32, first: &str, second: &str)
    requires
        encode_utf8(first@).len() <= u32::MAX,
        encode_utf8(second@).len() <= u32::MAX,
    ensures
        final(out)@ == old(out)@ + (Body::TwoPaths {
            id,
            first: first@,
            second: second@,
        }).spec_serialize(),
{
    put_u32(out, id);
    str_with_u32_length(first, out);
    str_with_u32_length(second, out);
    assert(out@ =~= old(out)@ + (Body::TwoPaths {
        id,
        first: first@,
        second: second@,
    }).spec_serialize());
}

/// Reads a status response.
pub fn parse_status(i: &[u8]) -> (r: Option<(u32, StatusType, String, String)>)
    ensures
        match r {
            Some((id, status, message, language)) => Body::spec_parse_status(i@) == Some(
                Body::Status { id, status, message: message@, language: language@ },
            ),
            None => Body::spec_parse_status(i@) is None,
        },
{
    let (i, id) = be_u32(i)?;
    let (i, code) = be_u32(i)?;
    let status = StatusType::from_code(code)?;
    let (i, message) = parse_string(i)?;
    let (i, language) = parse_string(i)?;
    if i.len() != 0 {
        return None;
    }
    Some((id, status, message, language))
}

/// Appends a payload of layout `Status` to `out`.
pub fn put_status(out: &mut Vec<u8>, id: u32, status: StatusType, message: &str, language: &str)
    requires
        encode_utf8(message@).len() <= u32::MAX,
        encode_utf8(language@).len() <= u32::MAX,
    ensures
        final(out)@ == old(out)@ + (Body::Status {
            id,
            status,
            message: message@,
            language: language@,
        }).spec_serialize(),
{
    put_u32(out, id);
    put_u32(out, status.to_code());
    str_with_u32_length(message, out);
    str_with_u32_length(language, out);
    assert(out@ =~= old(out)@ + (Body::Status {
        id,
        status,
        message: message@,
        language: language@,
    }).spec_serialize());
}

/// Reads a request id and a byte string.
pub fn parse_data(i: &[u8]) -> (r: Option<(u32, Vec<u8>)>)
    ensures
        match r {
            Some((id, data)) => Body::spec_parse_data(i@) == Some(Body::Data { id, data: data@ }),
            None => Body::spec_parse_data(i@) is None,
        },
{
    let (i, id) = be_u32(i)?;
    let (i, data) = parse_u8_vec(i)?;
    if i.len() != 0 {
        return None;
    }
    Some((id, data))
}

/// Appends a payload of layout `Data` to `out`.
pub fn put_data(out: &mut Vec<u8>, id: u32, data: &Vec<u8>)
    requires
        data@.len() <= u32::MAX,
    ensures
        final(out)@ == old(out)@ + (Body::Data { id, data: data@ }).spec_serialize(),
{
    put_u32(out, id);
    vec_with_u32_length(data, out);
    assert(out@ =~= old(out)@ + (Body::Data { id, data: data@ }).spec_serialize());
}

/// Reads a request id and attributes.
pub fn parse_attrs(i: &[u8]) -> (r: Option<(u32, FileAttributes)>)
    ensures
        match r {
            Some((id, attrs)) => Body::spec_parse_attrs(i@) == Some(Body::Attrs { id, attrs }),
            None => Body::spec_parse_attrs(i@) is None,
        },
{
    let (i, id) = be_u32(i)?;
    let (i, attrs) = FileAttributes::parse(i)?;
    if i.len() != 0 {
        return None;
    }
    Some((id, attrs))
}

/// Appends a payload of layout `Attrs` to `out`.
pub fn put_attrs(out: &mut Vec<u8>, id: u32, attrs: &FileAttributes)
    ensures
        final(out)@ == old(out)@ + (Body::Attrs { id, attrs: *attrs }).spec_serialize(),
{
    put_u32(out, id);
    attrs.serialize(out);
    assert(out@ =~= old(out)@ + (Body::Attrs { id, attrs: *attrs }).spec_serialize());
}

/// Reads a vendor request: an id, a name, then data to the end.
pub fn parse_extended(i: &[u8]) -> (r: Option<(u32, String, Vec<u8>)>)
    ensures
        match r {
            Some((id, request, data)) => Body::spec_parse_extended(i@) == Some(
                Body::Extended { id, request: request@, data: data@ },
            ),
            None => Body::spec_parse_extended(i@) is None,
        },
{
    let (i, id) = be_u32(i)?;
    let (i, request) = parse_string(i)?;
    let data = vstd::slice::slice_to_vec(i);
    Some((id, request, data))
}

/// Appends a payload of layout `Extended` to `out`.
pub fn put_extended(out: &mut Vec<u8>, id: u32, request: &str, data: &Vec<u8>)
    requires
        encode_utf8(request@).len() <= u32::MAX,
    ensures
        final(out)@ == old(out)@ + (Body::Extended {
            id,
            request: request@,
            data: data@,
        }).spec_serialize(),
{
    put_u32(out, id);
    str_with_u32_length(request, out);
    vec_u8_as_slice(data, out);
    assert(out@ =~= old(out)@ + (Body::Extended {
        id,
        request: request@,
        data: data@,
    }).spec_serialize());
}

/// Reads the answer to a vendor request: an id, then data to the end.
pub fn parse_extended_reply(i: &[u8]) -> (r: Option<(u32, Vec<u8>)>)
    ensures
        match r {
            Some((id, data)) => Body::spec_parse_extended_reply(i@) == Some(
                Body::ExtendedReply { id, data: data@ },
            ),
            None => Body::spec_parse_extended_reply(i@) is None,
        },
{
    let (i, id) = be_u32(i)?;
    let data = vstd::slice::slice_to_vec(i);
    Some((id, data))
}

/// Appends a payload of layout `ExtendedReply` to `out`.
pub fn put_extended_reply(out: &mut Vec<u8>, id: u32, data: &Vec<u8>)
    ensures
        final(out)@ == old(out)@ + (Body::ExtendedReply { id, data: data@ }).spec_serialize(),
{
    put_u32(out, id);
    vec_u8_as_slice(data, out);
    assert(out@ =~= old(out)@ + (Body::ExtendedReply { id, data: data@ }).spec_serialize());
}

/// Reads a name response: an id, a count, and that many entries.
pub fn parse_name(input: &[u8]) -> (r: Option<(u32, Vec<File>)>)
    ensures
        match r {
            Some((id, files)) => Body::spec_parse_name(input@) == Some(
                Body::Name { id, files: spec_file_views(files@) },
            ),
            None => Body::spec_parse_name(input@) is None,
        },
{
    let (i1, id) = be_u32(input)?;
    let (i, count) = be_u32(i1)?;
    let mut files: Vec<File> = Vec::new();
    let mut cur = i;
    let mut n: u32 = 0;
    proof {
        let (_, all) = spec_read_files(cur@, count as nat)->0;
        assert(spec_file_views(files@) + all =~= all);
    }
    while n < count
        invariant
            crate::number::spec_read_u32(input@) == Some((i1@, id)),
            crate::number::spec_read_u32(i1@) == Some((i@, count)),
            n <= count,
            files@.len() == n,
            spec_read_files(i@, count as nat) == match spec_read_files(
                cur@,
                (count - n) as nat,
            ) {
                Some((rest, more)) => Some((rest, spec_file_views(files@) + more)),
                None => None,
            },
        decreases count - n,
    {
        let ghost before = spec_file_views(files@);
        match File::parse(cur) {
            None => {
                return None;
            },
            Some((rest, f)) => {
                proof {
                    let tail = spec_read_files(rest@, (count - n - 1) as nat);
                    if tail is Some {
                        let (_, more) = tail->0;
                        assert(before + (seq![f@] + more) =~= before.push(f@) + more);
                    }
                }
                files.push(f);
                assert(spec_file_views(files@) =~= before.push(f@));
                cur = rest;
                n = n + 1;
            },
        }
    }
    assert(spec_file_views(files@) + Seq::<FileView>::empty() =~= spec_file_views(files@));
    if cur.len() != 0 {
        return None;
    }
    Some((id, files))
}

/// Appends a name response to `out`.
pub fn put_name(out: &mut Vec<u8>, id: u32, files: &Vec<File>)
    requires
        (Body::Name { id, files: spec_file_views(files@) }).spec_binsize() <= u32::MAX,
    ensures
        final(out)@ == old(out)@ + (Body::Name {
            id,
            files: spec_file_views(files@),
        }).spec_serialize(),
{
    let ghost views = spec_file_views(files@);
    proof {
        (Body::Name { id, files: views }).lemma_binsize();
        super::name::lemma_files_len(views);
    }
    put_u32(out, id);
    put_u32(out, files.len() as u32);
    let ghost base = out@;
    let mut n: usize = 0;
    assert(views.take(0) =~= Seq::<FileView>::empty());
    while n < files.len()
        invariant
            n <= files.len(),
            views == spec_file_views(files@),
            spec_files(views).len() <= u32::MAX,
            out@ == base + spec_files(views.take(n as int)),
        decreases files.len() - n,
    {
        proof {
            lemma_files_entry_len(views, n as int);
            views[n as int].lemma_at_least_twelve();
            lemma_files_push(views.take(n as int), views[n as int]);
            assert(views.take(n + 1) =~= views.take(n as int).push(views[n as int]));
            lemma_concat_assoc(
                base,
                spec_files(views.take(n as int)),
                views[n as int].spec_serialize(),
            );
        }
        files[n].serialize(out);
        n = n + 1;
    }
    proof {
        assert(views.take(n as int) =~= views);
        lemma_concat_assoc(
            old(out)@ + spec_be_u32(id),
            spec_be_u32(views.len() as u32),
            spec_files(views),
        );
        lemma_concat_assoc(
            old(out)@,
            spec_be_u32(id),
            spec_be_u32(views.len() as u32) + spec_files(views),
        );
    }
}

/// The number of bytes that the entries `files` take on the wire, where 32
/// bits hold it.
pub fn files_binsize(files: &Vec<File>) -> (r: Option<u32>)
    ensures
        match r {
            Some(n) => n == spec_files(spec_file_views(files@)).len(),
            None => spec_files(spec_file_views(files@)).len() > u32::MAX,
        },
{
    let ghost views = spec_file_views(files@);
    let mut total: u32 = 0;
    let mut n: usize = 0;
    assert(views.take(0) =~= Seq::<FileView>::empty());
    while n < files.len()
        invariant
            n <= files.len(),
            views == spec_file_views(files@),
            total == spec_files(views.take(n as int)).len(),
        decreases files.len() - n,
    {
        proof {
            lemma_files_push(views.take(n as int), views[n as int]);
            assert(views.take(n + 1) =~= views.take(n as int).push(views[n as int]));
            lemma_files_prefix_len(views, n + 1);
        }
        let size = match files[n].checked_binsize() {
            Some(size) => size,
            None => {
                return None;
            },
        };
        if size > u32::MAX - total {
            return None;
        }
        total = total + size;
        n = n + 1;
    }
    assert(views.take(n as int) =~= views);
    Some(total)
}

} // verus!
