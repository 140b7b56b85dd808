//! The result of the query that lists the development images.

use vstd::prelude::*;

verus! {

/// The query takes no variables.
#[derive(Clone, Copy, Debug)]
pub struct ListZtermDevImagesVariables {}

/// An error the server meant to be shown to the user.
#[derive(Clone, Debug)]
pub struct UserFacingError {
    pub message: String,
}

/// An image and where it is published.
#[derive(Clone, Debug)]
pub struct ImageTag {
    pub image: String,
    pub repository: String,
    pub tag: String,
}

/// The images listed.
#[derive(Clone, Debug)]
pub struct ListZtermDevImagesOutput {
    pub images: Vec<ImageTag>,
}

/// What the query returns: the images, an error for the user, or a result of
/// a kind this client does not know.
#[derive(Clone, Debug)]
pub enum ListZtermDevImagesResult {
    ListZtermDevImagesOutput(ListZtermDevImagesOutput),
    UserFacingError(UserFacingError),
    Unknown,
}

/// The root of the query's answer.
#[derive(Clone, Debug)]
pub struct ListZtermDevImages {
    pub list_zterm_dev_images: ListZtermDevImagesResult,
}

} // verus!
