//! Assertions on captured images.
use image::GenericImageView;
use vstd::arithmetic::mul::*;
use vstd::prelude::*;

use crate::client::{AgentClient, ClientError, Region};
use crate::text;
use crate::text::{cat4, chars_of, decimal};

verus! {

/// A pixel.
#[derive(Clone, Copy, Debug, PartialEq, Eq, Structural)]
pub struct Rgba {
    /// Red.
    pub red: u8,
    /// Green.
    pub green: u8,
    /// Blue.
    pub blue: u8,
    /// Opacity.
    pub alpha: u8,
}

/// An image, row by row.
pub struct Picture {
    /// Its width.
    pub width: u32,
    /// Its height.
    pub height: u32,
    /// Its pixels.
    pub pixels: Vec<Rgba>,
}

impl Picture {
    /// There is a pixel for each place.
    pub open spec fn wf(self) -> bool {
        self.pixels@.len() == self.width * self.height
    }

    /// The pixel at a place.
    pub open spec fn at(self, x: int, y: int) -> Rgba {
        self.pixels@[y * self.width + x]
    }

    /// The pixel at a place.
    fn pixel(&self, x: u32, y: u32) -> (r: Rgba)
        requires
            self.wf(),
            x < self.width,
            y < self.height,
        ensures
            r == self.at(x as int, y as int),
    {
        proof {
            let w = self.width as int;
            assert((y + 1) * w == y * w + w) by (nonlinear_arith);
            assert((y + 1) * w <= self.height as int * w) by (nonlinear_arith)
                requires
                    y + 1 <= self.height,
                    w >= 0,
            ;
            assert(self.height as int * w == w * self.height as int) by (nonlinear_arith);
            assert(0 <= y * w) by (nonlinear_arith)
                requires
                    w >= 0,
            ;
        }
        let width: usize = self.width as usize;
        let total: usize = self.pixels.len();
        assert(y as usize * width + x < total);
        self.pixels[y as usize * width + x as usize]
    }
}

/// The region as `{:?}` shows it.
pub open spec fn shown_region(r: Region) -> Seq<char> {
    "Region { x: "@ + text::digits(r.x as nat) + ", y: "@ + text::digits(r.y as nat)
        + ", width: "@ + text::digits(r.width as nat) + ", height: "@ + text::digits(
        r.height as nat,
    ) + " }"@
}

/// Why a region is no part of an image.
pub open spec fn region_refusal(width: u32, height: u32, r: Region) -> Option<Seq<char>> {
    if r.x + r.width > u32::MAX {
        Some("region x + width overflowed u32"@)
    } else if r.y + r.height > u32::MAX {
        Some("region y + height overflowed u32"@)
    } else if r.width == 0 || r.height == 0 || r.x + r.width > width || r.y + r.height > height {
        Some(
            "region "@ + shown_region(r) + " is outside image "@ + text::digits(width as nat)
                + "x"@ + text::digits(height as nat),
        )
    } else {
        None
    }
}

/// The result fails as an assertion with this message.
pub open spec fn asserts<T>(r: Result<T, ClientError>, reason: Seq<char>) -> bool {
    r matches Err(ClientError::Assertion(message)) && message@ == reason
}

/// Checks that a region is part of an image and has pixels.
pub fn validate_region(width: u32, height: u32, region: Region) -> (r: Result<(), ClientError>)
    ensures
        match region_refusal(width, height, region) {
            Some(reason) => asserts(r, reason),
            None => r is Ok,
        },
{
    let x_end = match region.x.checked_add(region.width) {
        Some(end) => end,
        None => return Err(
            ClientError::Assertion("region x + width overflowed u32".to_owned()),
        ),
    };
    let y_end = match region.y.checked_add(region.height) {
        Some(end) => end,
        None => return Err(
            ClientError::Assertion("region y + height overflowed u32".to_owned()),
        ),
    };
    if region.width == 0 || region.height == 0 || x_end > width || y_end > height {
        let mut message = cat4(
            "region Region { x: ",
            decimal(region.x as u128).as_str(),
            ", y: ",
            decimal(region.y as u128).as_str(),
        );
        message.append(", width: ");
        message.append(decimal(region.width as u128).as_str());
        message.append(", height: ");
        message.append(decimal(region.height as u128).as_str());
        message.append(" } is outside image ");
        message.append(decimal(width as u128).as_str());
        message.append("x");
        message.append(decimal(height as u128).as_str());
        proof {
            reveal_strlit("region Region { x: ");
            reveal_strlit("region ");
            reveal_strlit("Region { x: ");
            reveal_strlit(" } is outside image ");
            reveal_strlit(" }");
            reveal_strlit(" is outside image ");
            assert("region Region { x: "@ =~= "region "@ + "Region { x: "@);
            assert(" } is outside image "@ =~= " }"@ + " is outside image "@);
            assert(message@ =~= "region "@ + shown_region(region) + " is outside image "@
                + text::digits(width as nat) + "x"@ + text::digits(height as nat));
        }
        return Err(ClientError::Assertion(message));
    }
    Ok(())
}

/// One or nothing.
pub open spec fn one_if(b: bool) -> nat {
    if b {
        1
    } else {
        0
    }
}

/// How many of the first pixels of a row of a region differ.
pub open spec fn row_changes(a: Picture, b: Picture, x: int, y: int, n: nat) -> nat
    decreases n,
{
    if n == 0 {
        0
    } else {
        row_changes(a, b, x, y, (n - 1) as nat) + one_if(a.at(x + n - 1, y) != b.at(x + n - 1, y))
    }
}

/// How many pixels of the first rows of a region differ.
pub open spec fn changes(a: Picture, b: Picture, r: Region, rows: nat) -> nat
    decreases rows,
{
    if rows == 0 {
        0
    } else {
        changes(a, b, r, (rows - 1) as nat) + row_changes(
            a,
            b,
            r.x as int,
            r.y + rows - 1,
            r.width as nat,
        )
    }
}

/// The sizes as `{:?}` shows a pair.
pub open spec fn shown_size(p: Picture) -> Seq<char> {
    "("@ + text::digits(p.width as nat) + ", "@ + text::digits(p.height as nat) + ")"@
}

/// What is said of images of different sizes.
pub open spec fn size_refusal(a: Picture, b: Picture) -> Seq<char> {
    "image dimensions differ: "@ + shown_size(a) + " vs "@ + shown_size(b)
        + " (window resized; wait_until_stable + re-capture)"@
}

/// The whole image.
pub open spec fn whole(p: Picture) -> Region {
    Region { x: 0, y: 0, width: p.width, height: p.height }
}

/// The region that is meant: the given one, or the whole image.
pub open spec fn meant(p: Picture, region: Option<Region>) -> Region {
    match region {
        Some(region) => region,
        None => whole(p),
    }
}

fn push_size(out: &mut String, p: &Picture)
    ensures
        final(out)@ == old(out)@ + shown_size(*p),
{
    let ghost before = out@;
    out.append("(");
    out.append(decimal(p.width as u128).as_str());
    out.append(", ");
    out.append(decimal(p.height as u128).as_str());
    out.append(")");
    assert(out@ =~= before + shown_size(*p));
}

/// The result `r` is the number of pixels that differ, or says why they cannot be counted.
pub open spec fn diff_agrees(
    a: Picture,
    b: Picture,
    region: Option<Region>,
    r: Result<u64, ClientError>,
) -> bool {
    if a.width != b.width || a.height != b.height {
        asserts(r, size_refusal(a, b))
    } else {
        match region_refusal(a.width, a.height, meant(a, region)) {
            Some(reason) => asserts(r, reason),
            None => r matches Ok(n) && n == changes(
                a,
                b,
                meant(a, region),
                meant(a, region).height as nat,
            ),
        }
    }
}

/// Counts the pixels that differ between two images of one size.
pub fn diff_images(a: &Picture, b: &Picture, region: Option<Region>) -> (r: Result<
    u64,
    ClientError,
>)
    requires
        a.wf(),
        b.wf(),
    ensures
        diff_agrees(*a, *b, region, r),
{
    if a.width != b.width || a.height != b.height {
        let mut message = "image dimensions differ: ".to_owned();
        push_size(&mut message, a);
        message.append(" vs ");
        push_size(&mut message, b);
        message.append(" (window resized; wait_until_stable + re-capture)");
        assert(message@ =~= size_refusal(*a, *b));
        return Err(ClientError::Assertion(message));
    }
    let region = match region {
        Some(region) => region,
        None => Region { x: 0, y: 0, width: a.width, height: a.height },
    };
    match validate_region(a.width, a.height, region) {
        Err(error) => return Err(error),
        Ok(_) => {},
    }
    let mut changed: u64 = 0;
    let mut row: u32 = 0;
    while row < region.height
        invariant
            row <= region.height,
            a.wf(),
            b.wf(),
            a.width == b.width,
            a.height == b.height,
            region.x + region.width <= a.width,
            region.y + region.height <= a.height,
            changed == changes(*a, *b, region, row as nat),
            changed <= row * region.width,
        decreases region.height - row,
    {
        let ghost base = changed;
        let mut column: u32 = 0;
        let y = region.y + row;
        while column < region.width
            invariant
                column <= region.width,
                row < region.height,
                y == region.y + row,
                a.wf(),
                b.wf(),
                a.width == b.width,
                a.height == b.height,
                region.x + region.width <= a.width,
                region.y + region.height <= a.height,
                base <= row * region.width,
                changed == base + row_changes(*a, *b, region.x as int, y as int, column as nat),
                changed <= base + column,
            decreases region.width - column,
        {
            let x = region.x + column;
            assert(row * region.width + region.width <= u64::MAX) by (nonlinear_arith)
                requires
                    row < region.height,
                    region.height <= u32::MAX,
                    region.width <= u32::MAX,
            ;
            if a.pixel(x, y) != b.pixel(x, y) {
                changed = changed + 1;
            }
            column = column + 1;
        }
        assert((row + 1) * region.width == row * region.width + region.width) by (nonlinear_arith);
        row = row + 1;
    }
    Ok(changed)
}

/// The distance of two values is within a tolerance.
pub open spec fn near(actual: u8, expected: u8, tolerance: u8) -> bool {
    actual - expected <= tolerance && expected - actual <= tolerance
}

/// Tells whether the distance of two values is within a tolerance.
pub fn close(actual: u8, expected: u8, tolerance: u8) -> (r: bool)
    ensures
        r == near(actual, expected, tolerance),
{
    if actual >= expected {
        actual - expected <= tolerance
    } else {
        expected - actual <= tolerance
    }
}

/// A pixel has a color within a tolerance.
pub open spec fn colored(p: Rgba, color: Rgba, tolerance: u8) -> bool {
    near(p.red, color.red, tolerance) && near(p.green, color.green, tolerance) && near(
        p.blue,
        color.blue,
        tolerance,
    )
}

/// How many of the first pixels of a row of a region have a color.
pub open spec fn row_colored(p: Picture, color: Rgba, tolerance: u8, x: int, y: int, n: nat) -> nat
    decreases n,
{
    if n == 0 {
        0
    } else {
        row_colored(p, color, tolerance, x, y, (n - 1) as nat) + one_if(
            colored(p.at(x + n - 1, y), color, tolerance),
        )
    }
}

/// How many pixels of the first rows of a region have a color.
pub open spec fn colored_in(p: Picture, color: Rgba, tolerance: u8, r: Region, rows: nat) -> nat
    decreases rows,
{
    if rows == 0 {
        0
    } else {
        colored_in(p, color, tolerance, r, (rows - 1) as nat) + row_colored(
            p,
            color,
            tolerance,
            r.x as int,
            r.y + rows - 1,
            r.width as nat,
        )
    }
}

/// The result `r` is the number of pixels that have a color, or says why they cannot be counted.
pub open spec fn count_agrees(
    p: Picture,
    color: Rgba,
    region: Option<Region>,
    tolerance: u8,
    r: Result<u64, ClientError>,
) -> bool {
    match region_refusal(p.width, p.height, meant(p, region)) {
        Some(reason) => asserts(r, reason),
        None => r matches Ok(n) && n == colored_in(
            p,
            color,
            tolerance,
            meant(p, region),
            meant(p, region).height as nat,
        ),
    }
}

/// Counts the pixels that have a color, whatever their opacity.
pub fn color_pixel_count(p: &Picture, color: Rgba, region: Option<Region>, tolerance: u8) -> (r:
    Result<u64, ClientError>)
    requires
        p.wf(),
    ensures
        count_agrees(*p, color, region, tolerance, r),
{
    let region = match region {
        Some(region) => region,
        None => Region { x: 0, y: 0, width: p.width, height: p.height },
    };
    match validate_region(p.width, p.height, region) {
        Err(error) => return Err(error),
        Ok(_) => {},
    }
    let mut found: u64 = 0;
    let mut row: u32 = 0;
    while row < region.height
        invariant
            row <= region.height,
            p.wf(),
            region.x + region.width <= p.width,
            region.y + region.height <= p.height,
            found == colored_in(*p, color, tolerance, region, row as nat),
            found <= row * region.width,
        decreases region.height - row,
    {
        let ghost base = found;
        let mut column: u32 = 0;
        let y = region.y + row;
        while column < region.width
            invariant
                column <= region.width,
                row < region.height,
                y == region.y + row,
                p.wf(),
                region.x + region.width <= p.width,
                region.y + region.height <= p.height,
                base <= row * region.width,
                found == base + row_colored(
                    *p,
                    color,
                    tolerance,
                    region.x as int,
                    y as int,
                    column as nat,
                ),
                found <= base + column,
            decreases region.width - column,
        {
            let x = region.x + column;
            assert(row * region.width + region.width <= u64::MAX) by (nonlinear_arith)
                requires
                    row < region.height,
                    region.height <= u32::MAX,
                    region.width <= u32::MAX,
            ;
            let pixel = p.pixel(x, y);
            if close(pixel.red, color.red, tolerance) && close(pixel.green, color.green, tolerance)
                && close(pixel.blue, color.blue, tolerance) {
                found = found + 1;
            }
            column = column + 1;
        }
        assert((row + 1) * region.width == row * region.width + region.width) by (nonlinear_arith);
        row = row + 1;
    }
    Ok(found)
}

/// The result `r` says whether a region has a pixel of a color.
pub open spec fn has_color_agrees(
    p: Picture,
    color: Rgba,
    region: Region,
    tolerance: u8,
    r: Result<bool, ClientError>,
) -> bool {
    match region_refusal(p.width, p.height, region) {
        Some(reason) => asserts(r, reason),
        None => r matches Ok(b) && b == (colored_in(
            p,
            color,
            tolerance,
            region,
            region.height as nat,
        ) > 0),
    }
}

/// Tells whether a region has a pixel of a color.
pub fn image_has_color(p: &Picture, color: Rgba, region: Region, tolerance: u8) -> (r: Result<
    bool,
    ClientError,
>)
    requires
        p.wf(),
    ensures
        has_color_agrees(*p, color, region, tolerance, r),
{
    match color_pixel_count(p, color, Some(region), tolerance) {
        Ok(n) => Ok(n > 0),
        Err(error) => Err(error),
    }
}

/// What is said where too few pixels changed.
pub open spec fn too_few_changed(n: u64, least: u64) -> Seq<char> {
    "changed "@ + text::digits(n as nat) + " pixels, expected at least "@ + text::digits(
        least as nat,
    )
}

/// The result `r` says whether enough pixels changed.
pub open spec fn changed_agrees(
    a: Picture,
    b: Picture,
    region: Option<Region>,
    least: u64,
    r: Result<(), ClientError>,
) -> bool {
    if a.width != b.width || a.height != b.height {
        asserts(r, size_refusal(a, b))
    } else {
        match region_refusal(a.width, a.height, meant(a, region)) {
            Some(reason) => asserts(r, reason),
            None => {
                let n = changes(a, b, meant(a, region), meant(a, region).height as nat);
                if n >= least {
                    r is Ok
                } else {
                    asserts(r, too_few_changed(n as u64, least))
                }
            },
        }
    }
}

/// Checks that enough pixels changed.
pub fn changed_enough(a: &Picture, b: &Picture, region: Option<Region>, least: u64) -> (r: Result<
    (),
    ClientError,
>)
    requires
        a.wf(),
        b.wf(),
    ensures
        changed_agrees(*a, *b, region, least, r),
{
    match diff_images(a, b, region) {
        Err(error) => Err(error),
        Ok(n) => if n >= least {
            Ok(())
        } else {
            Err(
                ClientError::Assertion(
                    cat4(
                        "changed ",
                        decimal(n as u128).as_str(),
                        " pixels, expected at least ",
                        decimal(least as u128).as_str(),
                    ),
                ),
            )
        },
    }
}

/// What is said where too few pixels have a color.
pub open spec fn too_few_colored(n: u64, least: u64) -> Seq<char> {
    "found "@ + text::digits(n as nat) + " pixels, expected at least "@ + text::digits(least as nat)
}

/// The result `r` says whether enough pixels have a color.
pub open spec fn color_agrees(
    p: Picture,
    color: Rgba,
    region: Option<Region>,
    tolerance: u8,
    least: u64,
    r: Result<(), ClientError>,
) -> bool {
    match region_refusal(p.width, p.height, meant(p, region)) {
        Some(reason) => asserts(r, reason),
        None => {
            let n = colored_in(
                p,
                color,
                tolerance,
                meant(p, region),
                meant(p, region).height as nat,
            );
            if n >= least {
                r is Ok
            } else {
                asserts(r, too_few_colored(n as u64, least))
            }
        },
    }
}

/// Checks that enough pixels have a color.
pub fn colored_enough(
    p: &Picture,
    color: Rgba,
    region: Option<Region>,
    tolerance: u8,
    least: u64,
) -> (r: Result<(), ClientError>)
    requires
        p.wf(),
    ensures
        color_agrees(*p, color, region, tolerance, least, r),
{
    match color_pixel_count(p, color, region, tolerance) {
        Err(error) => Err(error),
        Ok(n) => if n >= least {
            Ok(())
        } else {
            Err(
                ClientError::Assertion(
                    cat4(
                        "found ",
                        decimal(n as u128).as_str(),
                        " pixels, expected at least ",
                        decimal(least as u128).as_str(),
                    ),
                ),
            )
        },
    }
}

/// A file with a picture.
pub struct PictureFile {
    /// Its name, without its directory.
    pub name: String,
    /// What it holds.
    pub bytes: Vec<u8>,
}

/// What `image::ImageReader` makes of a file of a given name with given bytes, of the format that
/// `image::ImageFormat::from_path` tells by the extension: the width, the height and the pixels row
/// by row, each as its red, green, blue and alpha, or the text of the error.
pub uninterp spec fn decoded_image(name: Seq<char>, bytes: Seq<u8>) -> Result<
    (u32, u32, Seq<u8>),
    Seq<char>,
>;

/// `image::ImageReader::decode` of the bytes of a file, of the format that
/// `image::ImageFormat::from_path` tells by its name, and `image::GenericImageView::pixels` of the
/// image: each pixel once, row by row, as four bytes.
#[verifier::external_body]
fn decode_raw(name: &str, bytes: &[u8]) -> (r: Result<(u32, u32, Vec<u8>), String>)
    ensures
        match r {
            Ok((width, height, raw)) => decoded_image(name@, bytes@) == Ok::<
                (u32, u32, Seq<u8>),
                Seq<char>,
            >((width, height, raw@)) && raw@.len() == 4 * (width * height),
            Err(message) => decoded_image(name@, bytes@) == Err::<
                (u32, u32, Seq<u8>),
                Seq<char>,
            >(message@),
        },
{
    let format = image::ImageFormat::from_path(name).map_err(|error| error.to_string())?;
    let reader = image::ImageReader::with_format(std::io::Cursor::new(bytes), format);
    let image = reader.decode().map_err(|error| error.to_string())?;
    let raw = image.pixels().flat_map(|(_, _, pixel)| pixel.0).collect();
    Ok((image.width(), image.height(), raw))
}

/// What a file shows: its size and its pixels, or why it cannot be read. A name that ends in a
/// point has no extension that could tell the format.
pub open spec fn shown(file: PictureFile) -> Result<(u32, u32, Seq<u8>), Seq<char>> {
    if file.name@.len() > 0 && file.name@.last() == '.' {
        Err("The image format could not be determined"@)
    } else {
        decoded_image(file.name@, file.bytes@)
    }
}

/// The picture shows the pixels, row by row, each as four bytes.
pub open spec fn shows(p: Picture, width: u32, height: u32, raw: Seq<u8>) -> bool {
    &&& p.wf()
    &&& p.width == width
    &&& p.height == height
    &&& forall|i: int|
        0 <= i < p.pixels@.len() ==> #[trigger] p.pixels@[i] == (Rgba {
            red: raw[4 * i],
            green: raw[4 * i + 1],
            blue: raw[4 * i + 2],
            alpha: raw[4 * i + 3],
        })
}

/// The picture is what a file shows.
pub open spec fn depicts(p: Picture, file: PictureFile) -> bool {
    shown(file) matches Ok((width, height, raw)) && shows(p, width, height, raw)
}

/// Takes decoded pixels apart. The result has a pixel for each four bytes.
pub fn picture_of(width: u32, height: u32, raw: &Vec<u8>) -> (r: Picture)
    requires
        raw@.len() == 4 * (width * height),
    ensures
        shows(r, width, height, raw@),
{
    let mut pixels: Vec<Rgba> = Vec::new();
    let mut at: usize = 0;
    let ghost total = width * height;
    while at < raw.len()
        invariant
            raw@.len() == 4 * total,
            at == 4 * pixels@.len(),
            at <= raw@.len(),
            forall|i: int|
                0 <= i < pixels@.len() ==> #[trigger] pixels@[i] == (Rgba {
                    red: raw@[4 * i],
                    green: raw@[4 * i + 1],
                    blue: raw@[4 * i + 2],
                    alpha: raw@[4 * i + 3],
                }),
        decreases raw@.len() - at,
    {
        pixels.push(
            Rgba { red: raw[at], green: raw[at + 1], blue: raw[at + 2], alpha: raw[at + 3] },
        );
        at = at + 4;
    }
    Picture { width, height, pixels }
}

/// Reads the picture of a file, in the format that its name tells.
pub fn decode(file: &PictureFile) -> (r: Result<Picture, ClientError>)
    ensures
        match shown(*file) {
            Ok(_) => r matches Ok(p) && depicts(p, *file),
            Err(message) => asserts(r, message),
        },
{
    let name = chars_of(file.name.as_str());
    if name.len() > 0 && name[name.len() - 1] == '.' {
        return Err(
            ClientError::Assertion("The image format could not be determined".to_owned()),
        );
    }
    match decode_raw(file.name.as_str(), file.bytes.as_slice()) {
        Ok((width, height, raw)) => Ok(picture_of(width, height, &raw)),
        Err(message) => Err(ClientError::Assertion(message)),
    }
}

/// Why one of two files cannot be read; the first one is tried first.
pub open spec fn unreadable(a: PictureFile, b: PictureFile) -> Option<Seq<char>> {
    match shown(a) {
        Err(message) => Some(message),
        Ok(_) => match shown(b) {
            Err(message) => Some(message),
            Ok(_) => None,
        },
    }
}

/// The result `r` is the number of pixels that differ between two files.
pub open spec fn files_diff_agrees(
    a: PictureFile,
    b: PictureFile,
    region: Option<Region>,
    r: Result<u64, ClientError>,
) -> bool {
    match unreadable(a, b) {
        Some(message) => asserts(r, message),
        None => exists|p: Picture, q: Picture| #[trigger]
            depicts(p, a) && #[trigger] depicts(q, b) && diff_agrees(p, q, region, r),
    }
}

/// The result `r` says whether enough pixels changed between two files.
pub open spec fn files_changed_agrees(
    a: PictureFile,
    b: PictureFile,
    region: Option<Region>,
    least: u64,
    r: Result<(), ClientError>,
) -> bool {
    match unreadable(a, b) {
        Some(message) => asserts(r, message),
        None => exists|p: Picture, q: Picture| #[trigger]
            depicts(p, a) && #[trigger] depicts(q, b) && changed_agrees(p, q, region, least, r),
    }
}

/// The result `r` says whether enough pixels of a file have a color.
pub open spec fn file_color_agrees(
    file: PictureFile,
    color: Rgba,
    region: Option<Region>,
    tolerance: u8,
    least: u64,
    r: Result<(), ClientError>,
) -> bool {
    match shown(file) {
        Err(message) => asserts(r, message),
        Ok(_) => exists|p: Picture| #[trigger]
            depicts(p, file) && color_agrees(p, color, region, tolerance, least, r),
    }
}

impl AgentClient {
    /// Counts the pixels that differ between two files.
    pub fn pixel_diff(a: &PictureFile, b: &PictureFile) -> (r: Result<u64, ClientError>)
        ensures
            files_diff_agrees(*a, *b, None, r),
    {
        match decode(a) {
            Err(error) => Err(error),
            Ok(p) => match decode(b) {
                Err(error) => Err(error),
                Ok(q) => diff_images(&p, &q, None),
            },
        }
    }

    /// Counts the pixels of a region that differ between two files.
    pub fn region_diff(a: &PictureFile, b: &PictureFile, region: Region) -> (r: Result<u64, ClientError>)
        ensures
            files_diff_agrees(*a, *b, Some(region), r),
    {
        match decode(a) {
            Err(error) => Err(error),
            Ok(p) => match decode(b) {
                Err(error) => Err(error),
                Ok(q) => diff_images(&p, &q, Some(region)),
            },
        }
    }

    /// Checks that enough pixels changed between two files.
    pub fn assert_changed(a: &PictureFile, b: &PictureFile, least: u64) -> (r: Result<(), ClientError>)
        ensures
            files_changed_agrees(*a, *b, None, least, r),
    {
        match decode(a) {
            Err(error) => Err(error),
            Ok(p) => match decode(b) {
                Err(error) => Err(error),
                Ok(q) => changed_enough(&p, &q, None, least),
            },
        }
    }

    /// Checks that enough pixels of a region changed between two files.
    pub fn assert_region_changed(a: &PictureFile, b: &PictureFile, region: Region, least: u64) -> (r: Result<
        (),
        ClientError,
    >)
        ensures
            files_changed_agrees(*a, *b, Some(region), least, r),
    {
        match decode(a) {
            Err(error) => Err(error),
            Ok(p) => match decode(b) {
                Err(error) => Err(error),
                Ok(q) => changed_enough(&p, &q, Some(region), least),
            },
        }
    }

    /// Checks that enough pixels of a file have a color.
    pub fn assert_color_present(
        file: &PictureFile,
        color: Rgba,
        region: Option<Region>,
        tolerance: u8,
        least: u64,
    ) -> (r: Result<(), ClientError>)
        ensures
            file_color_agrees(*file, color, region, tolerance, least, r),
    {
        match decode(file) {
            Err(error) => Err(error),
            Ok(p) => colored_enough(&p, color, region, tolerance, least),
        }
    }
}

proof fn lemma_row_symmetric(a: Picture, b: Picture, x: int, y: int, n: nat)
    ensures
        row_changes(a, b, x, y, n) == row_changes(b, a, x, y, n),
        row_changes(a, a, x, y, n) == 0,
        row_changes(a, b, x, y, n) <= n,
    decreases n,
{
    if n > 0 {
        lemma_row_symmetric(a, b, x, y, (n - 1) as nat);
    }
}

/// Law: as many pixels differ from one image to another as the other way round, none differ from an
/// image to itself, and no more differ than the region has.
pub proof fn law_changes_are_symmetric(a: Picture, b: Picture, r: Region, rows: nat)
    ensures
        changes(a, b, r, rows) == changes(b, a, r, rows),
        changes(a, a, r, rows) == 0,
        changes(a, b, r, rows) <= rows * r.width,
    decreases rows,
{
    if rows > 0 {
        law_changes_are_symmetric(a, b, r, (rows - 1) as nat);
        lemma_row_symmetric(a, b, r.x as int, r.y + rows - 1, r.width as nat);
        lemma_mul_is_distributive_sub_other_way(r.width as int, rows as int, 1);
    }
}

/// Tells whether two images show different pixels at a place: a channel, be it red, green, blue or
/// alpha, has another value.
pub open spec fn differ_at(a: Picture, b: Picture, x: int, y: int) -> bool {
    let p = a.pixels@[y * a.width + x];
    let q = b.pixels@[y * b.width + x];
    p.red != q.red || p.green != q.green || p.blue != q.blue || p.alpha != q.alpha
}

/// Tells whether each of red, green and blue at a place is at most a tolerance away from a color.
pub open spec fn color_at(p: Picture, color: Rgba, tolerance: u8, x: int, y: int) -> bool {
    let q = p.pixels@[y * p.width + x];
    &&& color.red - tolerance <= q.red <= color.red + tolerance
    &&& color.green - tolerance <= q.green <= color.green + tolerance
    &&& color.blue - tolerance <= q.blue <= color.blue + tolerance
}

/// The places of a region at which two images differ.
pub open spec fn places_that_differ(a: Picture, b: Picture, r: Region) -> Set<(int, int)> {
    Set::new(
        |p: (int, int)|
            r.x <= p.0 < r.x + r.width && r.y <= p.1 < r.y + r.height && differ_at(a, b, p.0, p.1),
    )
}

/// The places of a region that have a color.
pub open spec fn places_of_color(p: Picture, color: Rgba, tolerance: u8, r: Region) -> Set<
    (int, int),
> {
    Set::new(
        |q: (int, int)|
            r.x <= q.0 < r.x + r.width && r.y <= q.1 < r.y + r.height && color_at(
                p,
                color,
                tolerance,
                q.0,
                q.1,
            ),
    )
}

/// The region that an optional region stands for: itself, or the whole image.
pub open spec fn region_or_all(region: Option<Region>, width: u32, height: u32) -> Region {
    if region is Some {
        region->Some_0
    } else {
        Region { x: 0, y: 0, width, height }
    }
}

/// A region has a place, and all its places are in an image of this size.
pub open spec fn region_is_inside(r: Region, width: u32, height: u32) -> bool {
    0 < r.width && 0 < r.height && r.x + r.width <= width && r.y + r.height <= height
}

proof fn lemma_row_places(a: Picture, b: Picture, x: int, y: int, n: nat) -> (places: Set<
    (int, int),
>)
    ensures
        places == Set::new(
            |p: (int, int)| x <= p.0 < x + n && p.1 == y && differ_at(a, b, p.0, p.1),
        ),
        places.finite(),
        places.len() == row_changes(a, b, x, y, n),
    decreases n,
{
    let places = Set::new(
        |p: (int, int)| x <= p.0 < x + n && p.1 == y && differ_at(a, b, p.0, p.1),
    );
    if n == 0 {
        assert(places =~= Set::empty());
    } else {
        let before = lemma_row_places(a, b, x, y, (n - 1) as nat);
        if differ_at(a, b, x + n - 1, y) {
            assert(places =~= before.insert((x + n - 1, y)));
        } else {
            assert(places =~= before);
        }
    }
    places
}

proof fn lemma_places(a: Picture, b: Picture, r: Region, rows: nat) -> (places: Set<(int, int)>)
    ensures
        places == Set::new(
            |p: (int, int)|
                r.x <= p.0 < r.x + r.width && r.y <= p.1 < r.y + rows && differ_at(a, b, p.0, p.1),
        ),
        places.finite(),
        places.len() == changes(a, b, r, rows),
    decreases rows,
{
    let places = Set::new(
        |p: (int, int)|
            r.x <= p.0 < r.x + r.width && r.y <= p.1 < r.y + rows && differ_at(a, b, p.0, p.1),
    );
    if rows == 0 {
        assert(places =~= Set::empty());
    } else {
        let before = lemma_places(a, b, r, (rows - 1) as nat);
        let row = lemma_row_places(a, b, r.x as int, r.y + rows - 1, r.width as nat);
        vstd::set_lib::lemma_set_disjoint_lens(before, row);
        assert(before.disjoint(row));
        assert(places =~= before + row);
    }
    places
}

proof fn lemma_row_color_places(
    p: Picture,
    color: Rgba,
    tolerance: u8,
    x: int,
    y: int,
    n: nat,
) -> (places: Set<(int, int)>)
    ensures
        places == Set::new(
            |q: (int, int)|
                x <= q.0 < x + n && q.1 == y && color_at(p, color, tolerance, q.0, q.1),
        ),
        places.finite(),
        places.len() == row_colored(p, color, tolerance, x, y, n),
    decreases n,
{
    let places = Set::new(
        |q: (int, int)| x <= q.0 < x + n && q.1 == y && color_at(p, color, tolerance, q.0, q.1),
    );
    if n == 0 {
        assert(places =~= Set::empty());
    } else {
        let before = lemma_row_color_places(p, color, tolerance, x, y, (n - 1) as nat);
        if color_at(p, color, tolerance, x + n - 1, y) {
            assert(places =~= before.insert((x + n - 1, y)));
        } else {
            assert(places =~= before);
        }
    }
    places
}

proof fn lemma_color_places(
    p: Picture,
    color: Rgba,
    tolerance: u8,
    r: Region,
    rows: nat,
) -> (places: Set<(int, int)>)
    ensures
        places == Set::new(
            |q: (int, int)|
                r.x <= q.0 < r.x + r.width && r.y <= q.1 < r.y + rows && color_at(
                    p,
                    color,
                    tolerance,
                    q.0,
                    q.1,
                ),
        ),
        places.finite(),
        places.len() == colored_in(p, color, tolerance, r, rows),
    decreases rows,
{
    let places = Set::new(
        |q: (int, int)|
            r.x <= q.0 < r.x + r.width && r.y <= q.1 < r.y + rows && color_at(
                p,
                color,
                tolerance,
                q.0,
                q.1,
            ),
    );
    if rows == 0 {
        assert(places =~= Set::empty());
    } else {
        let before = lemma_color_places(p, color, tolerance, r, (rows - 1) as nat);
        let row = lemma_row_color_places(
            p,
            color,
            tolerance,
            r.x as int,
            r.y + rows - 1,
            r.width as nat,
        );
        vstd::set_lib::lemma_set_disjoint_lens(before, row);
        assert(before.disjoint(row));
        assert(places =~= before + row);
    }
    places
}

/// Law: pixels are counted exactly between images of one size and in a region inside them, and the
/// count is the number of places of the region at which red, green, blue or alpha differ. It is
/// nothing exactly where all pixels of the region are the same in all four.
pub proof fn law_differing_places_are_counted(
    a: Picture,
    b: Picture,
    region: Option<Region>,
    r: Result<u64, ClientError>,
)
    requires
        diff_agrees(a, b, region, r),
    ensures
        ({
            let places = places_that_differ(a, b, region_or_all(region, a.width, a.height));
            &&& r is Ok <==> a.width == b.width && a.height == b.height && region_is_inside(
                region_or_all(region, a.width, a.height),
                a.width,
                a.height,
            )
            &&& r matches Ok(n) ==> places.finite() && n == places.len()
            &&& r matches Ok(n) ==> (n == 0 <==> forall|x: int, y: int|
                #![trigger a.pixels@[y * a.width + x]]
                region_or_all(region, a.width, a.height).x <= x < region_or_all(
                    region,
                    a.width,
                    a.height,
                ).x + region_or_all(region, a.width, a.height).width && region_or_all(
                    region,
                    a.width,
                    a.height,
                ).y <= y < region_or_all(region, a.width, a.height).y + region_or_all(
                    region,
                    a.width,
                    a.height,
                ).height ==> a.pixels@[y * a.width + x] == b.pixels@[y * b.width + x])
            &&& r matches Err(error) ==> error is Assertion
        }),
{
    let area = region_or_all(region, a.width, a.height);
    let places = places_that_differ(a, b, area);
    if r is Ok {
        let n: u64 = r->Ok_0;
        let counted = lemma_places(a, b, area, area.height as nat);
        assert(places =~= counted);
        if n == 0 {
            vstd::set_lib::lemma_set_empty_equivalency_len(places);
            assert forall|x: int, y: int|
                #![trigger a.pixels@[y * a.width + x]]
                area.x <= x < area.x + area.width && area.y <= y < area.y
                    + area.height implies a.pixels@[y * a.width + x] == b.pixels@[y * b.width
                + x] by {
                assert(!places.contains((x, y)));
            }
        } else {
            vstd::set_lib::lemma_set_empty_equivalency_len(places);
            let p = choose|p: (int, int)| places.contains(p);
            assert(differ_at(a, b, p.0, p.1));
            assert(a.pixels@[p.1 * a.width + p.0] != b.pixels@[p.1 * b.width + p.0]);
        }
    }
}

/// Law: enough pixels changed exactly where the places of the region at which the images differ are
/// no fewer than what was asked for. Images of different sizes and regions outside fail.
pub proof fn law_enough_places_differ(
    a: Picture,
    b: Picture,
    region: Option<Region>,
    least: u64,
    r: Result<(), ClientError>,
)
    requires
        changed_agrees(a, b, region, least, r),
    ensures
        r is Ok <==> a.width == b.width && a.height == b.height && region_is_inside(
            region_or_all(region, a.width, a.height),
            a.width,
            a.height,
        ) && places_that_differ(a, b, region_or_all(region, a.width, a.height)).len() >= least,
        r matches Err(error) ==> error is Assertion,
{
    let area = region_or_all(region, a.width, a.height);
    let counted = lemma_places(a, b, area, area.height as nat);
    assert(places_that_differ(a, b, area) =~= counted);
}

/// Law: the count of a color is the number of places of the region at which each of red, green and
/// blue is at most the tolerance away from the color; alpha does not matter.
pub proof fn law_colored_places_are_counted(
    p: Picture,
    color: Rgba,
    region: Option<Region>,
    tolerance: u8,
    r: Result<u64, ClientError>,
)
    requires
        count_agrees(p, color, region, tolerance, r),
    ensures
        r is Ok <==> region_is_inside(
            region_or_all(region, p.width, p.height),
            p.width,
            p.height,
        ),
        r matches Ok(n) ==> n == places_of_color(
            p,
            color,
            tolerance,
            region_or_all(region, p.width, p.height),
        ).len(),
        r matches Err(error) ==> error is Assertion,
{
    let area = region_or_all(region, p.width, p.height);
    let counted = lemma_color_places(p, color, tolerance, area, area.height as nat);
    assert(places_of_color(p, color, tolerance, area) =~= counted);
}

/// Law: a region has a color exactly where one of its places has it.
pub proof fn law_color_is_somewhere(
    p: Picture,
    color: Rgba,
    region: Region,
    tolerance: u8,
    r: Result<bool, ClientError>,
)
    requires
        has_color_agrees(p, color, region, tolerance, r),
    ensures
        r is Ok <==> region_is_inside(region, p.width, p.height),
        r matches Ok(found) ==> (found <==> exists|x: int, y: int|
            #![trigger color_at(p, color, tolerance, x, y)]
            region.x <= x < region.x + region.width && region.y <= y < region.y + region.height
                && color_at(p, color, tolerance, x, y)),
{
    let places = lemma_color_places(p, color, tolerance, region, region.height as nat);
    vstd::set_lib::lemma_set_empty_equivalency_len(places);
    if places.len() > 0 {
        let q = choose|q: (int, int)| places.contains(q);
        assert(color_at(p, color, tolerance, q.0, q.1));
    } else {
        assert forall|x: int, y: int|
            #![trigger color_at(p, color, tolerance, x, y)]
            region.x <= x < region.x + region.width && region.y <= y < region.y
                + region.height implies !color_at(p, color, tolerance, x, y) by {
            assert(!places.contains((x, y)));
        }
    }
}

/// Law: a color is present exactly where the places of the region that have it are no fewer than
/// what was asked for.
pub proof fn law_enough_places_have_the_color(
    p: Picture,
    color: Rgba,
    region: Option<Region>,
    tolerance: u8,
    least: u64,
    r: Result<(), ClientError>,
)
    requires
        color_agrees(p, color, region, tolerance, least, r),
    ensures
        r is Ok <==> region_is_inside(
            region_or_all(region, p.width, p.height),
            p.width,
            p.height,
        ) && places_of_color(
            p,
            color,
            tolerance,
            region_or_all(region, p.width, p.height),
        ).len() >= least,
        r matches Err(error) ==> error is Assertion,
{
    let area = region_or_all(region, p.width, p.height);
    let counted = lemma_color_places(p, color, tolerance, area, area.height as nat);
    assert(places_of_color(p, color, tolerance, area) =~= counted);
}

/// The places of a region at which two images differ, each given as its pixels row by row and four
/// bytes to a pixel.
pub open spec fn bytes_that_differ(a: Seq<u8>, b: Seq<u8>, width: u32, r: Region) -> Set<
    (int, int),
> {
    Set::new(
        |p: (int, int)|
            r.x <= p.0 < r.x + r.width && r.y <= p.1 < r.y + r.height && exists|channel: int|
                0 <= channel < 4 && #[trigger] a[4 * (p.1 * width + p.0) + channel] != b[4 * (p.1
                    * width + p.0) + channel],
    )
}

proof fn lemma_bytes_differ(
    p: Picture,
    q: Picture,
    a: Seq<u8>,
    b: Seq<u8>,
    width: u32,
    height: u32,
    area: Region,
)
    requires
        shows(p, width, height, a),
        shows(q, width, height, b),
        region_is_inside(area, width, height),
    ensures
        places_that_differ(p, q, area) == bytes_that_differ(a, b, width, area),
{
    assert forall|x: int, y: int|
        area.x <= x < area.x + area.width && area.y <= y < area.y + area.height implies (
    #[trigger] differ_at(p, q, x, y) <==> exists|channel: int|
        0 <= channel < 4 && #[trigger] a[4 * (y * width + x) + channel] != b[4 * (y * width + x)
            + channel]) by {
        let at = y * width + x;
        assert(0 <= at < width * height) by (nonlinear_arith)
            requires
                at == y * width + x,
                0 <= x < width,
                0 <= y < height,
        ;
        assert(p.pixels@[at].red == a[4 * at + 0]);
        assert(q.pixels@[at].red == b[4 * at + 0]);
        if differ_at(p, q, x, y) {
            if p.pixels@[at].red != q.pixels@[at].red {
                assert(a[4 * at + 0] != b[4 * at + 0]);
            } else if p.pixels@[at].green != q.pixels@[at].green {
                assert(a[4 * at + 1] != b[4 * at + 1]);
            } else if p.pixels@[at].blue != q.pixels@[at].blue {
                assert(a[4 * at + 2] != b[4 * at + 2]);
            } else {
                assert(a[4 * at + 3] != b[4 * at + 3]);
            }
        }
    }
    assert(places_that_differ(p, q, area) =~= bytes_that_differ(a, b, width, area));
}

/// Law: the pixels that differ between two files are the places at which one of the four bytes of a
/// decoded pixel differs, wherever both files can be decoded to images of one size.
pub proof fn law_differing_files_are_told_apart(
    a: PictureFile,
    b: PictureFile,
    region: Option<Region>,
    r: Result<u64, ClientError>,
    width: u32,
    height: u32,
    first: Seq<u8>,
    second: Seq<u8>,
)
    requires
        files_diff_agrees(a, b, region, r),
        shown(a) == Ok::<(u32, u32, Seq<u8>), Seq<char>>((width, height, first)),
        shown(b) == Ok::<(u32, u32, Seq<u8>), Seq<char>>((width, height, second)),
    ensures
        r is Ok <==> region_is_inside(region_or_all(region, width, height), width, height),
        r matches Ok(n) ==> n == bytes_that_differ(
            first,
            second,
            width,
            region_or_all(region, width, height),
        ).len(),
{
    let (p, q) = choose|p: Picture, q: Picture| #[trigger]
        depicts(p, a) && #[trigger] depicts(q, b) && diff_agrees(p, q, region, r);
    law_differing_places_are_counted(p, q, region, r);
    if r is Ok {
        lemma_bytes_differ(
            p,
            q,
            first,
            second,
            width,
            height,
            region_or_all(region, width, height),
        );
    }
}

/// Law: enough pixels changed between two files exactly where the places at which one of the four
/// bytes of a decoded pixel differs are no fewer than what was asked for.
pub proof fn law_changed_files_are_told_apart(
    a: PictureFile,
    b: PictureFile,
    region: Option<Region>,
    least: u64,
    r: Result<(), ClientError>,
    width: u32,
    height: u32,
    first: Seq<u8>,
    second: Seq<u8>,
)
    requires
        files_changed_agrees(a, b, region, least, r),
        shown(a) == Ok::<(u32, u32, Seq<u8>), Seq<char>>((width, height, first)),
        shown(b) == Ok::<(u32, u32, Seq<u8>), Seq<char>>((width, height, second)),
    ensures
        r is Ok <==> region_is_inside(region_or_all(region, width, height), width, height)
            && bytes_that_differ(
            first,
            second,
            width,
            region_or_all(region, width, height),
        ).len() >= least,
{
    let (p, q) = choose|p: Picture, q: Picture| #[trigger]
        depicts(p, a) && #[trigger] depicts(q, b) && changed_agrees(p, q, region, least, r);
    law_enough_places_differ(p, q, region, least, r);
    if region_is_inside(region_or_all(region, width, height), width, height) {
        lemma_bytes_differ(
            p,
            q,
            first,
            second,
            width,
            height,
            region_or_all(region, width, height),
        );
    }
}

/// Law: files that cannot be decoded, or that decode to images of different sizes, are never
/// counted as equal or as different: the comparison fails.
pub proof fn law_only_images_of_one_size_are_compared(
    a: PictureFile,
    b: PictureFile,
    region: Option<Region>,
    least: u64,
    r: Result<u64, ClientError>,
    q: Result<(), ClientError>,
)
    requires
        files_diff_agrees(a, b, region, r),
        files_changed_agrees(a, b, region, least, q),
    ensures
        r is Ok ==> shown(a) is Ok && shown(b) is Ok && shown(a)->Ok_0.0 == shown(b)->Ok_0.0
            && shown(a)->Ok_0.1 == shown(b)->Ok_0.1,
        q is Ok ==> r is Ok,
        r matches Ok(n) ==> (q is Ok <==> n >= least),
{
    if unreadable(a, b) is None {
        let (p1, p2) = choose|p: Picture, q: Picture| #[trigger]
            depicts(p, a) && #[trigger] depicts(q, b) && diff_agrees(p, q, region, r);
        let (q1, q2) = choose|c: Picture, d: Picture| #[trigger]
            depicts(c, a) && #[trigger] depicts(d, b) && changed_agrees(c, d, region, least, q);
        assert(p1.pixels@ =~= q1.pixels@);
        assert(p2.pixels@ =~= q2.pixels@);
        law_differing_places_are_counted(p1, p2, region, r);
        law_enough_places_differ(q1, q2, region, least, q);
        let area = region_or_all(region, p1.width, p1.height);
        assert(places_that_differ(p1, p2, area) =~= places_that_differ(q1, q2, area));
    }
}

/// Law: a color is present in a file exactly where the decoded image has enough places at which the
/// bytes for red, green and blue are each at most the tolerance away from the color.
pub proof fn law_colors_of_files_are_found(
    file: PictureFile,
    color: Rgba,
    region: Option<Region>,
    tolerance: u8,
    least: u64,
    r: Result<(), ClientError>,
    width: u32,
    height: u32,
    raw: Seq<u8>,
)
    requires
        file_color_agrees(file, color, region, tolerance, least, r),
        shown(file) == Ok::<(u32, u32, Seq<u8>), Seq<char>>((width, height, raw)),
    ensures
        ({
            let area = region_or_all(region, width, height);
            r is Ok <==> region_is_inside(area, width, height) && Set::new(
                |p: (int, int)|
                    {
                        &&& area.x <= p.0 < area.x + area.width
                        &&& area.y <= p.1 < area.y + area.height
                        &&& color.red - tolerance <= raw[4 * (p.1 * width + p.0)] <= color.red
                            + tolerance
                        &&& color.green - tolerance <= raw[4 * (p.1 * width + p.0) + 1]
                            <= color.green + tolerance
                        &&& color.blue - tolerance <= raw[4 * (p.1 * width + p.0) + 2]
                            <= color.blue + tolerance
                    },
            ).len() >= least
        }),
{
    let p = choose|p: Picture| #[trigger]
        depicts(p, file) && color_agrees(p, color, region, tolerance, least, r);
    law_enough_places_have_the_color(p, color, region, tolerance, least, r);
    let area = region_or_all(region, width, height);
    let places = Set::new(
        |p: (int, int)|
            {
                &&& area.x <= p.0 < area.x + area.width
                &&& area.y <= p.1 < area.y + area.height
                &&& color.red - tolerance <= raw[4 * (p.1 * width + p.0)] <= color.red + tolerance
                &&& color.green - tolerance <= raw[4 * (p.1 * width + p.0) + 1] <= color.green
                    + tolerance
                &&& color.blue - tolerance <= raw[4 * (p.1 * width + p.0) + 2] <= color.blue
                    + tolerance
            },
    );
    if region_is_inside(area, width, height) {
        assert forall|x: int, y: int|
            area.x <= x < area.x + area.width && area.y <= y < area.y + area.height implies (
        #[trigger] color_at(p, color, tolerance, x, y) <==> places.contains((x, y))) by {
            let at = y * width + x;
            assert(0 <= at < width * height) by (nonlinear_arith)
                requires
                    at == y * width + x,
                    0 <= x < width,
                    0 <= y < height,
            ;
            assert(p.pixels@[at].red == raw[4 * at]);
        }
        assert(places_of_color(p, color, tolerance, area) =~= places);
    }
}

} // verus!
