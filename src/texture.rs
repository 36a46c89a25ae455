use vstd::prelude::*;

verus! {

/// Where a texture's name comes from: literal text or a numeric id.
#[derive(Debug, PartialEq)]
pub enum TextureName {
    Text(String),
    Number(i64),
}

/// The character of one decimal digit.
pub open spec fn digit_char(d: nat) -> char {
    if d == 0 { '0' }
    else if d == 1 { '1' }
    else if d == 2 { '2' }
    else if d == 3 { '3' }
    else if d == 4 { '4' }
    else if d == 5 { '5' }
    else if d == 6 { '6' }
    else if d == 7 { '7' }
    else if d == 8 { '8' }
    else { '9' }
}

/// The decimal representation of `n`, without leading zeros.
pub open spec fn decimal(n: nat) -> Seq<char>
    decreases n,
{
    if n < 10 {
        seq![digit_char(n)]
    } else {
        decimal(n / 10).push(digit_char(n % 10))
    }
}

impl TextureName {
    /// The texture name this source stands for.
    pub open spec fn name(self) -> Seq<char> {
        match self {
            TextureName::Text(s) => s@,
            TextureName::Number(n) => if n < 0 {
                seq!['-'] + decimal((-n) as nat)
            } else {
                decimal(n as nat)
            },
        }
    }

    pub fn get_texture_name(&self) -> (r: String)
        ensures
            r@ == self.name(),
    {
        match self {
            TextureName::Text(s) => s.clone(),
            TextureName::Number(n) => {
                let mut s = String::new();
                if *n < 0 {
                    proof {
                        reveal_strlit("-");
                    }
                    s.append("-");
                    let magnitude: u64 = (-(*n + 1)) as u64 + 1;
                    append_decimal(&mut s, magnitude);
                } else {
                    append_decimal(&mut s, *n as u64);
                }
                s
            },
        }
    }
}

fn digit_str(d: u64) -> (r: &'static str)
    requires
        d < 10,
    ensures
        r@ == seq![digit_char(d as nat)],
{
    proof {
        reveal_strlit("0");
        reveal_strlit("1");
        reveal_strlit("2");
        reveal_strlit("3");
        reveal_strlit("4");
        reveal_strlit("5");
        reveal_strlit("6");
        reveal_strlit("7");
        reveal_strlit("8");
        reveal_strlit("9");
    }
    if d == 0 { "0" }
    else if d == 1 { "1" }
    else if d == 2 { "2" }
    else if d == 3 { "3" }
    else if d == 4 { "4" }
    else if d == 5 { "5" }
    else if d == 6 { "6" }
    else if d == 7 { "7" }
    else if d == 8 { "8" }
    else { "9" }
}

fn append_decimal(s: &mut String, n: u64)
    ensures
        final(s)@ == old(s)@ + decimal(n as nat),
    decreases n,
{
    if n >= 10 {
        append_decimal(s, n / 10);
    }
    s.append(digit_str(n % 10));
}

impl Clone for TextureName {
    fn clone(&self) -> (r: Self)
        ensures
            r == *self,
    {
        match self {
            TextureName::Text(s) => TextureName::Text(s.clone()),
            TextureName::Number(n) => TextureName::Number(*n),
        }
    }
}


/// One of the six faces of a voxel.
#[derive(Clone, Copy, Debug, PartialEq, Eq, Structural)]
pub enum Side {
    Top,
    Bottom,
    Left,
    Right,
    Front,
    Back,
}

/// A corner of a texture's rectangle in the atlas.
#[derive(Clone, Copy, Debug, PartialEq, Eq, Structural)]
pub enum TextureMapping {
    TopLeft,
    TopRight,
    BottomLeft,
    BottomRight,
}

/// A name for each of the six faces.
#[derive(Debug, PartialEq)]
pub struct TextureMap {
    pub top: TextureName,
    pub bottom: TextureName,
    pub left: TextureName,
    pub right: TextureName,
    pub front: TextureName,
    pub back: TextureName,
}

/// A log-like block: one name on top, one on the bottom, one on the four sides.
#[derive(Debug, PartialEq)]
pub struct LogTextureMap {
    pub top: TextureName,
    pub side: TextureName,
    pub bottom: TextureName,
}

/// How a block model maps its faces to texture names.
#[derive(Debug, PartialEq)]
pub enum BlockTextureType {
    Blank,
    All(TextureName),
    Each(TextureMap),
    Log(LogTextureMap),
}

impl BlockTextureType {
    /// The texture name shown on `side`, or `None` where the strategy names no texture.
    pub open spec fn face_name(self, side: Side) -> Option<Seq<char>> {
        match self {
            BlockTextureType::Blank => None,
            BlockTextureType::All(t) => Some(t.name()),
            BlockTextureType::Log(m) => Some(
                match side {
                    Side::Top => m.top.name(),
                    Side::Bottom => m.bottom.name(),
                    _ => m.side.name(),
                },
            ),
            BlockTextureType::Each(m) => Some(
                match side {
                    Side::Top => m.top.name(),
                    Side::Bottom => m.bottom.name(),
                    Side::Left => m.left.name(),
                    Side::Right => m.right.name(),
                    Side::Front => m.front.name(),
                    Side::Back => m.back.name(),
                },
            ),
        }
    }

    /// Resolves the texture name of one face; the blank strategy has none, for
    /// any face.
    pub fn face_texture(&self, side: &Side) -> (r: Option<String>)
        ensures
            r matches Some(s) ==> self.face_name(*side) == Some(s@),
            r is None <==> self.face_name(*side) is None,
            r is None <==> self is Blank,
    {
        match self {
            BlockTextureType::Blank => None,
            BlockTextureType::All(t) => Some(t.get_texture_name()),
            BlockTextureType::Log(m) => match side {
                Side::Top => Some(m.top.get_texture_name()),
                Side::Bottom => Some(m.bottom.get_texture_name()),
                _ => Some(m.side.get_texture_name()),
            },
            BlockTextureType::Each(m) => match side {
                Side::Top => Some(m.top.get_texture_name()),
                Side::Bottom => Some(m.bottom.get_texture_name()),
                Side::Left => Some(m.left.get_texture_name()),
                Side::Right => Some(m.right.get_texture_name()),
                Side::Front => Some(m.front.get_texture_name()),
                Side::Back => Some(m.back.get_texture_name()),
            },
        }
    }
}

/// A log strategy shows its top name on top, its bottom name below and its side
/// name on the four other faces; an all strategy shows its one name on every
/// face; an each strategy shows each face's own name; the blank strategy names
/// no face.
pub proof fn lemma_texture_resolution(t: BlockTextureType, side: Side)
    ensures
        t matches BlockTextureType::Log(m) ==> {
            &&& t.face_name(Side::Top) == Some(m.top.name())
            &&& t.face_name(Side::Bottom) == Some(m.bottom.name())
            &&& t.face_name(Side::Left) == Some(m.side.name())
            &&& t.face_name(Side::Right) == Some(m.side.name())
            &&& t.face_name(Side::Front) == Some(m.side.name())
            &&& t.face_name(Side::Back) == Some(m.side.name())
        },
        t matches BlockTextureType::Each(m) ==> {
            &&& t.face_name(Side::Top) == Some(m.top.name())
            &&& t.face_name(Side::Bottom) == Some(m.bottom.name())
            &&& t.face_name(Side::Left) == Some(m.left.name())
            &&& t.face_name(Side::Right) == Some(m.right.name())
            &&& t.face_name(Side::Front) == Some(m.front.name())
            &&& t.face_name(Side::Back) == Some(m.back.name())
        },
        t matches BlockTextureType::All(n) ==> t.face_name(side) == Some(n.name()),
        t is Blank ==> t.face_name(side) is None,
{
}

impl Clone for TextureMap {
    fn clone(&self) -> (r: Self)
        ensures
            r == *self,
    {
        TextureMap {
            top: self.top.clone(),
            bottom: self.bottom.clone(),
            left: self.left.clone(),
            right: self.right.clone(),
            front: self.front.clone(),
            back: self.back.clone(),
        }
    }
}

impl Clone for LogTextureMap {
    fn clone(&self) -> (r: Self)
        ensures
            r == *self,
    {
        LogTextureMap { top: self.top.clone(), side: self.side.clone(), bottom: self.bottom.clone() }
    }
}

impl Clone for BlockTextureType {
    fn clone(&self) -> (r: Self)
        ensures
            r == *self,
    {
        match self {
            BlockTextureType::Blank => BlockTextureType::Blank,
            BlockTextureType::All(t) => BlockTextureType::All(t.clone()),
            BlockTextureType::Each(m) => BlockTextureType::Each(m.clone()),
            BlockTextureType::Log(m) => BlockTextureType::Log(m.clone()),
        }
    }
}

} // verus!
