//! The transport-independent shape of a handler's answer: a status code and
//! one of the body forms the handlers produce, plus the fixed answers given
//! when a database call fails.

use vstd::prelude::*;

use crate::product::{Product, ProductView, products_view};
use crate::user::{UserResponse, UserResponseView};

verus! {

/// A response body. `Message` is a JSON object with one `message` field,
/// `Note` a bare JSON string, `Text` a plain-text payload; the rest carry
/// the fetched data.
pub enum Body {
    Message(String),
    Note(String),
    Text(String),
    ProductItem(Product),
    ProductList(Vec<Product>),
    User(UserResponse),
}

/// Mathematical image of a body.
#[verifier::ext_equal]
pub ghost enum BodyView {
    Message(Seq<char>),
    Note(Seq<char>),
    Text(Seq<char>),
    ProductItem(ProductView),
    ProductList(Seq<ProductView>),
    User(UserResponseView),
}

impl View for Body {
    type V = BodyView;

    open spec fn view(&self) -> BodyView {
        match self {
            Body::Message(m) => BodyView::Message(m@),
            Body::Note(m) => BodyView::Note(m@),
            Body::Text(m) => BodyView::Text(m@),
            Body::ProductItem(p) => BodyView::ProductItem(p@),
            Body::ProductList(l) => BodyView::ProductList(products_view(l@)),
            Body::User(u) => BodyView::User(u@),
        }
    }
}

/// A handler's answer: an HTTP status code and a body.
pub struct ApiResponse {
    pub status: u16,
    pub body: Body,
}

/// Mathematical image of an answer.
#[verifier::ext_equal]
pub ghost struct ApiResponseView {
    pub status: int,
    pub body: BodyView,
}

impl View for ApiResponse {
    type V = ApiResponseView;

    open spec fn view(&self) -> ApiResponseView {
        ApiResponseView { status: self.status as int, body: self.body@ }
    }
}

/// The database statement each handler issues, used to pick the fixed
/// answer when that statement fails.
#[derive(Clone, Copy)]
pub enum DbOperation {
    InsertProduct,
    SelectProducts,
    SelectProduct,
    UpdateProduct,
    DeleteProduct,
    SelectUserEmails,
    InsertUser,
    SelectUserByEmail,
    SelectUserById,
}

/// The answer given when the statement fails: always 500, with the message
/// of the handler that issued it. The signup insert answers in plain text;
/// every other handler answers with a JSON message object.
pub open spec fn spec_db_failure_response(op: DbOperation) -> ApiResponseView {
    match op {
        DbOperation::InsertProduct => ApiResponseView {
            status: 500,
            body: BodyView::Message("Failed to add product."@),
        },
        DbOperation::SelectProducts => ApiResponseView {
            status: 500,
            body: BodyView::Message("Failed to fetch products!"@),
        },
        DbOperation::SelectProduct => ApiResponseView {
            status: 500,
            body: BodyView::Message("Failed to fetch product!"@),
        },
        DbOperation::UpdateProduct => ApiResponseView {
            status: 500,
            body: BodyView::Message("Failed to update product!"@),
        },
        DbOperation::DeleteProduct => ApiResponseView {
            status: 500,
            body: BodyView::Message("Failed to delete the product!"@),
        },
        DbOperation::SelectUserEmails => ApiResponseView {
            status: 500,
            body: BodyView::Message("Failed to check existing users."@),
        },
        DbOperation::InsertUser => ApiResponseView {
            status: 500,
            body: BodyView::Text("Failed to add user!"@),
        },
        DbOperation::SelectUserByEmail => ApiResponseView {
            status: 500,
            body: BodyView::Message("Database error occured!"@),
        },
        DbOperation::SelectUserById => ApiResponseView {
            status: 500,
            body: BodyView::Message("Database error!"@),
        },
    }
}

/// Build the fixed answer for a failed statement.
pub fn db_failure_response(op: DbOperation) -> (r: ApiResponse)
    ensures
        r@ == spec_db_failure_response(op),
{
    match op {
        DbOperation::InsertProduct => ApiResponse {
            status: 500,
            body: Body::Message("Failed to add product.".to_owned()),
        },
        DbOperation::SelectProducts => ApiResponse {
            status: 500,
            body: Body::Message("Failed to fetch products!".to_owned()),
        },
        DbOperation::SelectProduct => ApiResponse {
            status: 500,
            body: Body::Message("Failed to fetch product!".to_owned()),
        },
        DbOperation::UpdateProduct => ApiResponse {
            status: 500,
            body: Body::Message("Failed to update product!".to_owned()),
        },
        DbOperation::DeleteProduct => ApiResponse {
            status: 500,
            body: Body::Message("Failed to delete the product!".to_owned()),
        },
        DbOperation::SelectUserEmails => ApiResponse {
            status: 500,
            body: Body::Message("Failed to check existing users.".to_owned()),
        },
        DbOperation::InsertUser => ApiResponse {
            status: 500,
            body: Body::Text("Failed to add user!".to_owned()),
        },
        DbOperation::SelectUserByEmail => ApiResponse {
            status: 500,
            body: Body::Message("Database error occured!".to_owned()),
        },
        DbOperation::SelectUserById => ApiResponse {
            status: 500,
            body: Body::Message("Database error!".to_owned()),
        },
    }
}

} // verus!
