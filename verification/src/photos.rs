//! The typed payloads of the API: pages of posts, their photos and sizes,
//! and the total-count payload.

use vstd::prelude::*;

verus! {

/// One rendition of a photo. The address is kept as bytes, since it is what
/// a download needs.
#[derive(Debug, PartialEq, Clone)]
pub struct PhotoSize {
    pub width: u64,
    pub height: u64,
    pub url: Vec<u8>,
}

/// The mathematical model of a photo size.
pub ghost struct PhotoSizeModel {
    pub width: u64,
    pub height: u64,
    pub url: Seq<u8>,
}

impl View for PhotoSize {
    type V = PhotoSizeModel;

    open spec fn view(&self) -> PhotoSizeModel {
        PhotoSizeModel { width: self.width, height: self.height, url: self.url@ }
    }
}

/// One photo, as its available renditions, largest first as the API sends
/// them.
#[derive(Debug, PartialEq, Clone)]
pub struct Photo {
    pub sizes: Vec<PhotoSize>,
}

/// The mathematical model of a photo.
pub ghost struct PhotoModel {
    pub sizes: Seq<PhotoSizeModel>,
}

/// The models of a sequence of photo sizes.
pub open spec fn size_views(v: Seq<PhotoSize>) -> Seq<PhotoSizeModel> {
    v.map_values(|z: PhotoSize| z@)
}

impl View for Photo {
    type V = PhotoModel;

    open spec fn view(&self) -> PhotoModel {
        PhotoModel { sizes: size_views(self.sizes@) }
    }
}

/// One post: its identifier and its photos.
#[derive(Debug, PartialEq, Clone)]
pub struct Post {
    pub id: u64,
    pub photos: Vec<Photo>,
}

/// The mathematical model of a post.
pub ghost struct PostModel {
    pub id: u64,
    pub photos: Seq<PhotoModel>,
}

/// The models of a sequence of photos.
pub open spec fn photo_views(v: Seq<Photo>) -> Seq<PhotoModel> {
    v.map_values(|p: Photo| p@)
}

impl View for Post {
    type V = PostModel;

    open spec fn view(&self) -> PostModel {
        PostModel { id: self.id, photos: photo_views(self.photos@) }
    }
}

/// The payload of one page request: posts in the order the API returned
/// them.
#[derive(Debug, PartialEq, Clone)]
pub struct Posts {
    pub posts: Vec<Post>,
}

/// The mathematical model of a page payload.
pub ghost struct PostsModel {
    pub posts: Seq<PostModel>,
}

/// The models of a sequence of posts.
pub open spec fn post_views(v: Seq<Post>) -> Seq<PostModel> {
    v.map_values(|p: Post| p@)
}

impl View for Posts {
    type V = PostsModel;

    open spec fn view(&self) -> PostsModel {
        PostsModel { posts: post_views(self.posts@) }
    }
}

/// The payload of a total-count request.
#[derive(Debug, PartialEq, Clone)]
pub struct TotalPosts {
    pub amount: usize,
}

} // verus!
