use vstd::prelude::*;

verus! {

/// What can be wrong with the face lines of a Wavefront OBJ file.
#[derive(Debug, Clone, Copy, PartialEq, Eq, Structural)]
pub enum ObjError {
    /// A face line names neither three nor four corners.
    FaceArity,
    /// A corner is not of the form `v/vt/vn`.
    CornerFormat,
    /// A corner index is zero; indices count from one.
    ZeroIndex,
}

/// One corner of a face: zero-based indices of its position, texture
/// coordinate and normal.
#[derive(Debug, Clone, Copy, PartialEq, Eq, Structural)]
pub struct Corner {
    pub vertex: usize,
    pub texture: usize,
    pub normal: usize,
}

/// ASCII whitespace, as `split_whitespace` sees it.
pub open spec fn is_space(b: u8) -> bool {
    b == 32 || b == 9 || b == 10 || b == 11 || b == 12 || b == 13
}

/// The words of `s` after the word `cur` that is being read: maximal runs
/// of bytes that are not whitespace.
pub open spec fn words_after(s: Seq<u8>, cur: Seq<u8>) -> Seq<Seq<u8>>
    decreases s.len(),
{
    let done = if cur.len() > 0 { seq![cur] } else { Seq::<Seq<u8>>::empty() };
    if s.len() == 0 {
        done
    } else if is_space(s[0]) {
        done + words_after(s.drop_first(), Seq::empty())
    } else {
        words_after(s.drop_first(), cur.push(s[0]))
    }
}

/// The whitespace-separated words of a line.
pub open spec fn words(s: Seq<u8>) -> Seq<Seq<u8>> {
    words_after(s, Seq::empty())
}

/// The fields of `s` after the field `cur` that is being read, split at
/// each `/`; empty fields are kept.
pub open spec fn fields_after(s: Seq<u8>, cur: Seq<u8>) -> Seq<Seq<u8>>
    decreases s.len(),
{
    if s.len() == 0 {
        seq![cur]
    } else if s[0] == 47 {
        seq![cur] + fields_after(s.drop_first(), Seq::empty())
    } else {
        fields_after(s.drop_first(), cur.push(s[0]))
    }
}

/// The `/`-separated fields of a corner.
pub open spec fn fields(s: Seq<u8>) -> Seq<Seq<u8>> {
    fields_after(s, Seq::empty())
}

pub open spec fn is_digit(b: u8) -> bool {
    48 <= b <= 57
}

/// Value of a string of decimal digits.
pub open spec fn digits_value(s: Seq<u8>) -> nat
    decreases s.len(),
{
    if s.len() == 0 {
        0
    } else {
        digits_value(s.drop_last()) * 10 + (s.last() - 48) as nat
    }
}

/// The digits of an unsigned number, after an optional `+`.
pub open spec fn unsigned_digits(s: Seq<u8>) -> Seq<u8> {
    if s.len() > 0 && s[0] == 43 {
        s.drop_first()
    } else {
        s
    }
}

/// Whether `s` reads as a `usize`.
pub open spec fn is_index(s: Seq<u8>) -> bool {
    let d = unsigned_digits(s);
    &&& d.len() > 0
    &&& forall|i: int| 0 <= i < d.len() ==> is_digit(#[trigger] d[i])
    &&& digits_value(d) <= usize::MAX
}

/// A one-based index field: its value, or one where it does not read as a
/// `usize`.
pub open spec fn index_value(s: Seq<u8>) -> nat {
    if is_index(s) {
        digits_value(unsigned_digits(s))
    } else {
        1
    }
}

/// The corner that a `v/vt/vn` word stands for.
pub open spec fn corner_of(w: Seq<u8>) -> Result<Corner, ObjError> {
    let f = fields(w);
    if f.len() != 3 {
        Err(ObjError::CornerFormat)
    } else if index_value(f[0]) == 0 || index_value(f[1]) == 0 || index_value(f[2]) == 0 {
        Err(ObjError::ZeroIndex)
    } else {
        Ok(
            Corner {
                vertex: (index_value(f[0]) - 1) as usize,
                texture: (index_value(f[1]) - 1) as usize,
                normal: (index_value(f[2]) - 1) as usize,
            },
        )
    }
}

/// The corners of a sequence of corner words, or the first word's error.
pub open spec fn corners_of(ws: Seq<Seq<u8>>) -> Result<Seq<Corner>, ObjError>
    decreases ws.len(),
{
    if ws.len() == 0 {
        Ok(Seq::empty())
    } else {
        match corners_of(ws.drop_last()) {
            Err(e) => Err(e),
            Ok(cs) => match corner_of(ws.last()) {
                Err(e) => Err(e),
                Ok(c) => Ok(cs.push(c)),
            },
        }
    }
}

/// A face as triangles: a triangle as it is, a quad `a b c d` as the two
/// triangles `a b c` and `a c d`.
pub open spec fn triangulated(cs: Seq<Corner>) -> Seq<Corner> {
    if cs.len() == 4 {
        seq![cs[0], cs[1], cs[2], cs[0], cs[2], cs[3]]
    } else {
        cs
    }
}

/// The triangle corners of a face line (`f` and three or four corners).
pub open spec fn face_of(line: Seq<u8>) -> Result<Seq<Corner>, ObjError> {
    let ws = words(line);
    if ws.len() != 4 && ws.len() != 5 {
        Err(ObjError::FaceArity)
    } else {
        match corners_of(ws.drop_first()) {
            Err(e) => Err(e),
            Ok(cs) => Ok(triangulated(cs)),
        }
    }
}

/// The byte strings that a vector of buffers holds.
pub open spec fn views(v: Seq<Vec<u8>>) -> Seq<Seq<u8>> {
    v.map_values(|w: Vec<u8>| w@)
}

/// Splits a line into its whitespace-separated words.
pub fn split_words(line: &[u8]) -> (r: Vec<Vec<u8>>)
    ensures
        views(r@) == words(line@),
{
    let mut out: Vec<Vec<u8>> = Vec::new();
    let mut cur: Vec<u8> = Vec::new();
    let mut i: usize = 0;
    assert(line@.skip(0) =~= line@);
    assert(views(out@) =~= Seq::<Seq<u8>>::empty());
    while i < line.len()
        invariant
            i <= line@.len(),
            views(out@) + words_after(line@.skip(i as int), cur@) == words(line@),
        decreases line.len() - i,
    {
        let b = line[i];
        let ghost rest = line@.skip(i as int);
        assert(rest.drop_first() =~= line@.skip(i + 1));
        if b == 32 || b == 9 || b == 10 || b == 11 || b == 12 || b == 13 {
            if cur.len() > 0 {
                let ghost before = views(out@);
                out.push(cur);
                assert(views(out@) =~= before.push(cur@));
                assert(before + (seq![cur@] + words_after(line@.skip(i + 1), Seq::empty()))
                    =~= before.push(cur@) + words_after(line@.skip(i + 1), Seq::empty()));
            } else {
                assert(Seq::<Seq<u8>>::empty() + words_after(line@.skip(i + 1), Seq::empty())
                    =~= words_after(line@.skip(i + 1), Seq::empty()));
            }
            cur = Vec::new();
        } else {
            cur.push(b);
        }
        i = i + 1;
    }
    assert(line@.skip(i as int) =~= Seq::<u8>::empty());
    if cur.len() > 0 {
        let ghost before = views(out@);
        out.push(cur);
        assert(views(out@) =~= before.push(cur@));
        assert(before + seq![cur@] =~= before.push(cur@));
    } else {
        assert(views(out@) + Seq::<Seq<u8>>::empty() =~= views(out@));
    }
    out
}

/// Splits a corner word at each `/`.
pub fn split_fields(word: &[u8]) -> (r: Vec<Vec<u8>>)
    ensures
        views(r@) == fields(word@),
{
    let mut out: Vec<Vec<u8>> = Vec::new();
    let mut cur: Vec<u8> = Vec::new();
    let mut i: usize = 0;
    assert(word@.skip(0) =~= word@);
    assert(views(out@) =~= Seq::<Seq<u8>>::empty());
    while i < word.len()
        invariant
            i <= word@.len(),
            views(out@) + fields_after(word@.skip(i as int), cur@) == fields(word@),
        decreases word.len() - i,
    {
        let b = word[i];
        let ghost rest = word@.skip(i as int);
        assert(rest.drop_first() =~= word@.skip(i + 1));
        if b == 47 {
            let ghost before = views(out@);
            out.push(cur);
            assert(views(out@) =~= before.push(cur@));
            assert(before + (seq![cur@] + fields_after(word@.skip(i + 1), Seq::empty()))
                =~= before.push(cur@) + fields_after(word@.skip(i + 1), Seq::empty()));
            cur = Vec::new();
        } else {
            cur.push(b);
        }
        i = i + 1;
    }
    assert(word@.skip(i as int) =~= Seq::<u8>::empty());
    let ghost before = views(out@);
    out.push(cur);
    assert(views(out@) =~= before.push(cur@));
    assert(before + seq![cur@] =~= before.push(cur@));
    out
}

proof fn lemma_digits_prefix(s: Seq<u8>, k: int)
    requires
        0 <= k <= s.len(),
    ensures
        digits_value(s.take(k)) <= digits_value(s),
    decreases s.len() - k,
{
    if k == s.len() {
        assert(s.take(k) =~= s);
    } else {
        lemma_digits_prefix(s, k + 1);
        assert(s.take(k + 1).drop_last() =~= s.take(k));
    }
}

proof fn lemma_first_error(ws: Seq<Seq<u8>>, k: int)
    requires
        0 <= k <= ws.len(),
        corners_of(ws.take(k)) is Err,
    ensures
        corners_of(ws) == corners_of(ws.take(k)),
    decreases ws.len() - k,
{
    if k == ws.len() {
        assert(ws.take(k) =~= ws);
    } else {
        assert(ws.take(k + 1).drop_last() =~= ws.take(k));
        lemma_first_error(ws, k + 1);
    }
}

/// Reads a one-based index field as `str::parse::<usize>` does, taking one
/// where it does not read.
pub fn parse_index(field: &[u8]) -> (r: usize)
    ensures
        r == index_value(field@),
{
    let start: usize = if field.len() > 0 && field[0] == 43 { 1 } else { 0 };
    let ghost d = field@.subrange(start as int, field@.len() as int);
    assert(d =~= unsigned_digits(field@));
    if start == field.len() {
        return 1;
    }
    let mut acc: usize = 0;
    let mut i: usize = start;
    assert(field@.subrange(start as int, start as int) =~= Seq::<u8>::empty());
    while i < field.len()
        invariant
            start <= i <= field@.len(),
            start < field@.len(),
            d == field@.subrange(start as int, field@.len() as int),
            d == unsigned_digits(field@),
            acc == digits_value(field@.subrange(start as int, i as int)),
            forall|j: int| start <= j < i ==> is_digit(#[trigger] field@[j]),
        decreases field.len() - i,
    {
        let b = field[i];
        if b < 48 || b > 57 {
            assert(!is_digit(d[i - start]));
            return 1;
        }
        let ghost next = field@.subrange(start as int, i + 1);
        assert(next.drop_last() =~= field@.subrange(start as int, i as int));
        assert(next =~= d.take(i + 1 - start));
        proof {
            lemma_digits_prefix(d, i + 1 - start);
        }
        let digit: usize = (b - 48) as usize;
        match acc.checked_mul(10) {
            None => {
                return 1;
            },
            Some(tens) => match tens.checked_add(digit) {
                None => {
                    return 1;
                },
                Some(v) => {
                    acc = v;
                },
            },
        }
        i = i + 1;
    }
    assert(field@.subrange(start as int, i as int) =~= d);
    acc
}

/// Reads a `v/vt/vn` corner word into zero-based indices.
pub fn parse_corner(word: &[u8]) -> (r: Result<Corner, ObjError>)
    ensures
        r == corner_of(word@),
{
    let f = split_fields(word);
    if f.len() != 3 {
        return Err(ObjError::CornerFormat);
    }
    assert(f@[0]@ == fields(word@)[0] && f@[1]@ == fields(word@)[1] && f@[2]@ == fields(word@)[2]);
    let v = parse_index(f[0].as_slice());
    let t = parse_index(f[1].as_slice());
    let n = parse_index(f[2].as_slice());
    if v == 0 || t == 0 || n == 0 {
        return Err(ObjError::ZeroIndex);
    }
    Ok(Corner { vertex: v - 1, texture: t - 1, normal: n - 1 })
}

/// Reads a face line, `f` and three or four corner words, into the corners
/// of its triangles.
pub fn parse_face(line: &[u8]) -> (r: Result<Vec<Corner>, ObjError>)
    ensures
        match r {
            Ok(v) => face_of(line@) == Ok::<Seq<Corner>, ObjError>(v@),
            Err(e) => face_of(line@) == Err::<Seq<Corner>, ObjError>(e),
        },
{
    let ws = split_words(line);
    let n = ws.len();
    if n != 4 && n != 5 {
        return Err(ObjError::FaceArity);
    }
    let ghost cws = views(ws@).drop_first();
    let mut out: Vec<Corner> = Vec::new();
    let mut i: usize = 1;
    assert(cws.take(0) =~= Seq::<Seq<u8>>::empty());
    while i < n
        invariant
            1 <= i <= n,
            n == ws@.len(),
            n == 4 || n == 5,
            cws == views(ws@).drop_first(),
            views(ws@) == words(line@),
            corners_of(cws.take(i - 1)) == Ok::<Seq<Corner>, ObjError>(out@),
        decreases n - i,
    {
        assert(cws.take(i as int).drop_last() =~= cws.take(i - 1));
        assert(cws.take(i as int).last() == ws@[i as int]@);
        match parse_corner(ws[i].as_slice()) {
            Err(e) => {
                proof {
                    lemma_first_error(cws, i as int);
                }
                return Err(e);
            },
            Ok(c) => {
                out.push(c);
            },
        }
        i = i + 1;
    }
    assert(cws.take(n - 1) =~= cws);
    if out.len() == 4 {
        let tri = vec![out[0], out[1], out[2], out[0], out[2], out[3]];
        assert(tri@ =~= triangulated(out@));
        Ok(tri)
    } else {
        Ok(out)
    }
}

/// Whether every corner names an existing position and normal, and an
/// existing texture coordinate where the mesh has any.
pub open spec fn corners_fit(cs: Seq<Corner>, vertices: nat, textures: nat, normals: nat) -> bool {
    forall|k: int| 0 <= k < cs.len() ==> {
        &&& (#[trigger] cs[k]).vertex < vertices
        &&& cs[k].normal < normals
        &&& (textures == 0 || cs[k].texture < textures)
    }
}

/// Checks that the corners can be looked up in lists of the given lengths.
pub fn corners_in_range(corners: &Vec<Corner>, vertices: usize, textures: usize, normals: usize) -> (r: bool)
    ensures
        r == corners_fit(corners@, vertices as nat, textures as nat, normals as nat),
{
    let mut i: usize = 0;
    while i < corners.len()
        invariant
            i <= corners@.len(),
            corners_fit(corners@.take(i as int), vertices as nat, textures as nat, normals as nat),
        decreases corners.len() - i,
    {
        let c = corners[i];
        if c.vertex >= vertices || c.normal >= normals || (textures != 0 && c.texture >= textures) {
            assert(!corners_fit(corners@, vertices as nat, textures as nat, normals as nat)) by {
                assert(corners@[i as int] == c);
            }
            return false;
        }
        assert forall|k: int| 0 <= k < i + 1 implies {
            &&& (#[trigger] corners@.take(i + 1)[k]).vertex < vertices
            &&& corners@.take(i + 1)[k].normal < normals
            &&& (textures == 0 || corners@.take(i + 1)[k].texture < textures)
        } by {
            if k < i {
                assert(corners@.take(i + 1)[k] == corners@.take(i as int)[k]);
            }
        }
        i = i + 1;
    }
    assert(corners@.take(i as int) =~= corners@);
    true
}

} // verus!
